//! Per-guild sliding-window rate limiting.
//!
//! A bucket holds, per guild, a remaining-call counter and a window-reset
//! timestamp. `check` lazily resets the counter to full capacity when the
//! current time is past the stored reset timestamp, then answers from the
//! counter; `commit` debits one call and is invoked only after a handler
//! succeeds, so a failed command does not consume allowance. Entries whose
//! window has passed can be evicted without changing behaviour. Time is a
//! millisecond count supplied by the caller; the limiter is correct for a
//! single dispatching process.

use vstd::prelude::*;

verus! {

/// Per-guild state: calls left in the window, and when the window resets.
#[derive(Clone, Copy, PartialEq, Eq, Structural)]
pub struct BucketEntry {
    pub remaining: u64,
    pub reset_at: u64,
}

/// A named rate-limit bucket's state for every guild.
pub struct Bucket {
    /// Window length in milliseconds.
    pub window: u64,
    /// Calls allowed per window.
    pub capacity: u64,
    /// Per-guild entries; lazily created on first use.
    pub entries: Vec<(u64, BucketEntry)>,
}

/// Ghost image of a bucket.
pub struct BucketView {
    pub window: u64,
    pub capacity: u64,
    pub entries: Seq<(u64, BucketEntry)>,
}

impl View for Bucket {
    type V = BucketView;

    open spec fn view(&self) -> BucketView {
        BucketView { window: self.window, capacity: self.capacity, entries: self.entries@ }
    }
}

/// Index of the guild's entry: the first with its id.
pub open spec fn find_entry(entries: Seq<(u64, BucketEntry)>, guild_id: u64) -> Option<int>
    decreases entries.len(),
{
    if entries.len() == 0 {
        None
    } else if entries[0].0 == guild_id {
        Some(0int)
    } else {
        match find_entry(entries.drop_first(), guild_id) {
            Some(i) => Some(i + 1),
            None => None,
        }
    }
}

/// What `find_entry` returns is in range and is the first entry of the guild.
pub proof fn lemma_find_entry_sound(entries: Seq<(u64, BucketEntry)>, guild_id: u64)
    ensures
        match find_entry(entries, guild_id) {
            Some(i) => 0 <= i < entries.len() && entries[i].0 == guild_id && forall|k: int|
                0 <= k < i ==> (#[trigger] entries[k]).0 != guild_id,
            None => forall|k: int| 0 <= k < entries.len() ==> (#[trigger] entries[k]).0 != guild_id,
        },
    decreases entries.len(),
{
    if entries.len() > 0 && entries[0].0 != guild_id {
        lemma_find_entry_sound(entries.drop_first(), guild_id);
        match find_entry(entries.drop_first(), guild_id) {
            Some(i) => {
                assert(entries.drop_first()[i] == entries[i + 1]);
                assert forall|k: int| 0 <= k < i + 1 implies (#[trigger] entries[k]).0 != guild_id by {
                    if k > 0 {
                        assert(entries.drop_first()[k - 1] == entries[k]);
                    }
                }
            },
            None => {
                assert forall|k: int| 0 <= k < entries.len() implies (#[trigger] entries[k]).0
                    != guild_id by {
                    if k > 0 {
                        assert(entries.drop_first()[k - 1] == entries[k]);
                    }
                }
            },
        }
    }
}

/// The first entry of the guild is where `find_entry` points.
pub proof fn lemma_find_entry_first(entries: Seq<(u64, BucketEntry)>, guild_id: u64, i: int)
    requires
        0 <= i <= entries.len(),
        forall|k: int| 0 <= k < i ==> (#[trigger] entries[k]).0 != guild_id,
        i < entries.len() ==> entries[i].0 == guild_id,
    ensures
        find_entry(entries, guild_id) == if i < entries.len() {
            Some(i)
        } else {
            None::<int>
        },
    decreases entries.len(),
{
    if entries.len() > 0 {
        if i == 0 {
        } else {
            assert(entries[0].0 != guild_id);
            assert forall|k: int| 0 <= k < i - 1 implies (#[trigger] entries.drop_first()[k]).0
                != guild_id by {
                assert(entries.drop_first()[k] == entries[k + 1]);
            }
            if i - 1 < entries.drop_first().len() {
                assert(entries.drop_first()[i - 1] == entries[i]);
            }
            lemma_find_entry_first(entries.drop_first(), guild_id, i - 1);
        }
    }
}

/// The reset timestamp a fresh window gets: `now + window`, pinned to the
/// largest representable time on overflow.
pub open spec fn reset_of(now: u64, window: u64) -> u64 {
    if now + window <= u64::MAX {
        (now + window) as u64
    } else {
        u64::MAX
    }
}

/// The guild's state once lazy reset and lazy creation are accounted for: a
/// missing entry, or one whose window has passed, stands for a full window
/// starting now.
pub open spec fn spec_effective(b: BucketView, guild_id: u64, now: u64) -> BucketEntry {
    match find_entry(b.entries, guild_id) {
        Some(i) => {
            if now >= b.entries[i].1.reset_at {
                BucketEntry { remaining: b.capacity, reset_at: reset_of(now, b.window) }
            } else {
                b.entries[i].1
            }
        },
        None => BucketEntry { remaining: b.capacity, reset_at: reset_of(now, b.window) },
    }
}

/// The entries with the guild's entry set to `e`, created if missing.
pub open spec fn spec_store(b: BucketView, guild_id: u64, e: BucketEntry) -> Seq<(u64, BucketEntry)> {
    match find_entry(b.entries, guild_id) {
        Some(i) => b.entries.update(i, (guild_id, e)),
        None => b.entries.push((guild_id, e)),
    }
}

/// `check` at the specification level: the new entries, and `None` where the
/// call is admitted or `Some(wait)` with the time left until the window
/// resets.
pub open spec fn spec_check(b: BucketView, guild_id: u64, now: u64) -> (
    Seq<(u64, BucketEntry)>,
    Option<u64>,
) {
    let e = spec_effective(b, guild_id, now);
    (
        spec_store(b, guild_id, e),
        if e.remaining > 0 {
            None
        } else {
            Some((e.reset_at - now) as u64)
        },
    )
}

/// `commit` at the specification level: one call is debited from the
/// effective state. Debiting an empty window leaves it empty.
pub open spec fn spec_commit(b: BucketView, guild_id: u64, now: u64) -> Seq<(u64, BucketEntry)> {
    let e = spec_effective(b, guild_id, now);
    let debited = BucketEntry {
        remaining: if e.remaining > 0 {
            (e.remaining - 1) as u64
        } else {
            0
        },
        reset_at: e.reset_at,
    };
    spec_store(b, guild_id, debited)
}

/// The effective reset time never lies in the past.
pub proof fn lemma_effective_reset_future(b: BucketView, guild_id: u64, now: u64)
    ensures
        spec_effective(b, guild_id, now).reset_at >= now,
{
    lemma_find_entry_sound(b.entries, guild_id);
}

/// After a store, the guild's entry holds exactly the stored state, and the
/// shape of the rest is untouched.
pub proof fn lemma_store_find(b: BucketView, guild_id: u64, e: BucketEntry)
    ensures
        ({
            let s2 = spec_store(b, guild_id, e);
            match find_entry(s2, guild_id) {
                Some(i) => 0 <= i < s2.len() && s2[i] == (guild_id, e),
                None => false,
            }
        }),
{
    lemma_find_entry_sound(b.entries, guild_id);
    match find_entry(b.entries, guild_id) {
        Some(i) => {
            let s2 = b.entries.update(i, (guild_id, e));
            assert forall|k: int| 0 <= k < i implies (#[trigger] s2[k]).0 != guild_id by {
                assert(s2[k] == b.entries[k]);
            }
            lemma_find_entry_first(s2, guild_id, i);
        },
        None => {
            let s2 = b.entries.push((guild_id, e));
            assert forall|k: int| 0 <= k < b.entries.len() implies (#[trigger] s2[k]).0
                != guild_id by {
                assert(s2[k] == b.entries[k]);
            }
            lemma_find_entry_first(s2, guild_id, b.entries.len() as int);
        },
    }
}

/// A `check` that admits a call leaves the guild's state as it found it: a
/// later `check` before the deadline still admits the call, off the same
/// unchanged deadline. A handler failure, which commits nothing, therefore
/// costs no allowance.
pub proof fn lemma_check_none_keeps_state(b: BucketView, guild_id: u64, now: u64, now2: u64)
    requires
        spec_check(b, guild_id, now).1 is None,
        now <= now2 < spec_effective(b, guild_id, now).reset_at,
    ensures
        ({
            let b1 = BucketView {
                window: b.window,
                capacity: b.capacity,
                entries: spec_check(b, guild_id, now).0,
            };
            &&& spec_effective(b1, guild_id, now2) == spec_effective(b, guild_id, now)
            &&& spec_check(b1, guild_id, now2).1 is None
            &&& spec_check(b1, guild_id, now2).0 == b1.entries
        }),
{
    let e = spec_effective(b, guild_id, now);
    let b1 = BucketView {
        window: b.window,
        capacity: b.capacity,
        entries: spec_store(b, guild_id, e),
    };
    lemma_store_find(b, guild_id, e);
    let i = find_entry(b1.entries, guild_id).unwrap();
    assert(spec_effective(b1, guild_id, now2) == e);
    assert(spec_store(b1, guild_id, e) =~= b1.entries);
}

/// The bucket state after a sequence of commits, one per recorded time.
pub open spec fn apply_commits(b: BucketView, guild_id: u64, times: Seq<u64>) -> BucketView
    decreases times.len(),
{
    if times.len() == 0 {
        b
    } else {
        apply_commits(
            BucketView {
                window: b.window,
                capacity: b.capacity,
                entries: spec_commit(b, guild_id, times[0]),
            },
            guild_id,
            times.drop_first(),
        )
    }
}

/// Commits before the deadline drain the counter one call at a time, leaving
/// the deadline alone.
pub proof fn lemma_commits_drain(
    b: BucketView,
    guild_id: u64,
    times: Seq<u64>,
    rem: u64,
    reset: u64,
)
    requires
        match find_entry(b.entries, guild_id) {
            Some(i) => b.entries[i].1 == BucketEntry { remaining: rem, reset_at: reset },
            None => false,
        },
        forall|k: int| 0 <= k < times.len() ==> #[trigger] times[k] < reset,
        times.len() <= rem,
    ensures
        ({
            let b2 = apply_commits(b, guild_id, times);
            &&& b2.window == b.window
            &&& b2.capacity == b.capacity
            &&& match find_entry(b2.entries, guild_id) {
                Some(i) => b2.entries[i].1 == BucketEntry {
                    remaining: (rem - times.len()) as u64,
                    reset_at: reset,
                },
                None => false,
            }
        }),
    decreases times.len(),
{
    if times.len() > 0 {
        let e = spec_effective(b, guild_id, times[0]);
        lemma_find_entry_sound(b.entries, guild_id);
        assert(e == BucketEntry { remaining: rem, reset_at: reset });
        let debited = BucketEntry { remaining: (rem - 1) as u64, reset_at: reset };
        lemma_store_find(b, guild_id, debited);
        let b1 = BucketView {
            window: b.window,
            capacity: b.capacity,
            entries: spec_commit(b, guild_id, times[0]),
        };
        assert(forall|k: int|
            0 <= k < times.drop_first().len() ==> #[trigger] times.drop_first()[k] == times[k + 1]);
        lemma_commits_drain(b1, guild_id, times.drop_first(), (rem - 1) as u64, reset);
    }
}

/// The window law: starting with no live entry, `capacity` commits inside one
/// window exhaust the bucket — the next `check` inside the window answers a
/// wait no longer than the window — and a `check` once the window has passed
/// admits calls again.
pub proof fn lemma_window_exhaust(
    b: BucketView,
    guild_id: u64,
    times: Seq<u64>,
    now: u64,
    now2: u64,
)
    requires
        find_entry(b.entries, guild_id) == None::<int>,
        b.capacity >= 1,
        times.len() == b.capacity,
        times[0] + b.window <= u64::MAX,
        forall|k: int| 0 <= k < times.len() ==> times[0] <= #[trigger] times[k] < times[0]
            + b.window,
        times[0] <= now < times[0] + b.window,
        now2 >= times[0] + b.window,
    ensures
        ({
            let b2 = apply_commits(b, guild_id, times);
            &&& spec_check(b2, guild_id, now).1 matches Some(wait) && wait <= b.window
            &&& spec_check(b2, guild_id, now2).1 is None
        }),
{
    let reset = reset_of(times[0], b.window);
    assert(reset == times[0] + b.window);
    let e0 = spec_effective(b, guild_id, times[0]);
    assert(e0 == BucketEntry { remaining: b.capacity, reset_at: reset });
    let debited = BucketEntry { remaining: (b.capacity - 1) as u64, reset_at: reset };
    lemma_store_find(b, guild_id, debited);
    let b1 = BucketView {
        window: b.window,
        capacity: b.capacity,
        entries: spec_commit(b, guild_id, times[0]),
    };
    assert(forall|k: int|
        0 <= k < times.drop_first().len() ==> #[trigger] times.drop_first()[k] == times[k + 1]);
    lemma_commits_drain(b1, guild_id, times.drop_first(), (b.capacity - 1) as u64, reset);
    let b2 = apply_commits(b, guild_id, times);
    assert(b2 == apply_commits(b1, guild_id, times.drop_first()));
    lemma_find_entry_sound(b2.entries, guild_id);
    assert(spec_effective(b2, guild_id, now) == BucketEntry { remaining: 0, reset_at: reset });
    assert(spec_effective(b2, guild_id, now2).remaining == b.capacity);
}

impl Bucket {
    /// A fresh bucket of the given window and capacity.
    pub fn new(window: u64, capacity: u64) -> (r: Bucket)
        ensures
            r@.window == window,
            r@.capacity == capacity,
            r@.entries.len() == 0,
    {
        Bucket { window, capacity, entries: Vec::new() }
    }

    /// Finds the guild's entry.
    fn find(&self, guild_id: u64) -> (r: Option<usize>)
        ensures
            match r {
                Some(i) => find_entry(self@.entries, guild_id) == Some(i as int) && i
                    < self@.entries.len(),
                None => find_entry(self@.entries, guild_id) == None::<int>,
            },
    {
        let n = self.entries.len();
        let mut k: usize = 0;
        while k < n
            invariant
                k <= n == self.entries@.len(),
                forall|m: int| 0 <= m < k ==> (#[trigger] self.entries@[m]).0 != guild_id,
            decreases n - k,
        {
            if self.entries[k].0 == guild_id {
                proof {
                    lemma_find_entry_first(self@.entries, guild_id, k as int);
                }
                return Some(k);
            }
            k += 1;
        }
        proof {
            lemma_find_entry_first(self@.entries, guild_id, n as int);
        }
        None
    }

    /// Admits the call when the guild has calls left in the current window,
    /// lazily opening a fresh window where none is live, and answers the wait
    /// until reset otherwise. Does not debit.
    pub fn check(&mut self, guild_id: u64, now: u64) -> (r: Option<u64>)
        ensures
            final(self)@.window == old(self)@.window,
            final(self)@.capacity == old(self)@.capacity,
            (final(self)@.entries, r) == spec_check(old(self)@, guild_id, now),
    {
        let e = self.effective(guild_id, now);
        let r = if e.remaining > 0 {
            None
        } else {
            proof {
                lemma_effective_reset_future(self@, guild_id, now);
            }
            Some(e.reset_at - now)
        };
        self.store(guild_id, e);
        r
    }

    /// Debits one call after a handler succeeded.
    pub fn commit(&mut self, guild_id: u64, now: u64)
        ensures
            final(self)@.window == old(self)@.window,
            final(self)@.capacity == old(self)@.capacity,
            final(self)@.entries == spec_commit(old(self)@, guild_id, now),
    {
        let e = self.effective(guild_id, now);
        let debited = BucketEntry {
            remaining: if e.remaining > 0 {
                e.remaining - 1
            } else {
                0
            },
            reset_at: e.reset_at,
        };
        self.store(guild_id, debited);
    }

    /// The guild's effective state now.
    fn effective(&self, guild_id: u64, now: u64) -> (e: BucketEntry)
        ensures
            e == spec_effective(self@, guild_id, now),
    {
        let fresh = BucketEntry {
            remaining: self.capacity,
            reset_at: if now <= u64::MAX - self.window {
                now + self.window
            } else {
                u64::MAX
            },
        };
        match self.find(guild_id) {
            Some(i) => {
                let stored = self.entries[i].1;
                if now >= stored.reset_at {
                    fresh
                } else {
                    stored
                }
            },
            None => fresh,
        }
    }

    /// Writes the guild's entry, creating it if missing.
    fn store(&mut self, guild_id: u64, e: BucketEntry)
        ensures
            final(self)@.window == old(self)@.window,
            final(self)@.capacity == old(self)@.capacity,
            final(self)@.entries == spec_store(old(self)@, guild_id, e),
    {
        match self.find(guild_id) {
            Some(i) => {
                self.entries[i] = (guild_id, e);
            },
            None => {
                self.entries.push((guild_id, e));
            },
        }
    }

    /// Removes exactly the entries whose window has passed: such an entry
    /// stands for a full fresh window either way, so behaviour is unchanged.
    pub fn evict_expired(&mut self, now: u64)
        ensures
            final(self)@.window == old(self)@.window,
            final(self)@.capacity == old(self)@.capacity,
            final(self)@.entries == old(self)@.entries.filter(
                (|e: (u64, BucketEntry)| e.1.reset_at > now),
            ),
    {
        let ghost pred = (|e: (u64, BucketEntry)| e.1.reset_at > now);
        let n = self.entries.len();
        let mut kept: Vec<(u64, BucketEntry)> = Vec::new();
        let mut k: usize = 0;
        proof {
            reveal(Seq::filter);
            assert(self.entries@.take(0).filter(pred) =~= Seq::<(u64, BucketEntry)>::empty());
        }
        while k < n
            invariant
                k <= n == self.entries@.len(),
                self == old(self),
                kept@ == self.entries@.take(k as int).filter(pred),
                pred == (|e: (u64, BucketEntry)| e.1.reset_at > now),
            decreases n - k,
        {
            let entry = self.entries[k];
            proof {
                assert(self.entries@.take(k + 1).drop_last() =~= self.entries@.take(k as int));
                assert(self.entries@.take(k + 1).last() == self.entries@[k as int]);
            }
            if entry.1.reset_at > now {
                kept.push(entry);
                proof {
                    reveal(Seq::filter);
                    assert(pred(self.entries@[k as int]));
                    assert(self.entries@.take(k + 1).filter(pred) == self.entries@.take(
                        k as int,
                    ).filter(pred).push(self.entries@[k as int]));
                }
            } else {
                proof {
                    reveal(Seq::filter);
                    assert(!pred(self.entries@[k as int]));
                    assert(self.entries@.take(k + 1).filter(pred) == self.entries@.take(
                        k as int,
                    ).filter(pred));
                }
            }
            k += 1;
        }
        proof {
            assert(self.entries@.take(n as int) =~= self.entries@);
        }
        self.entries = kept;
    }
}

} // verus!
