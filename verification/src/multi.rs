//! The concurrency gate of the spawn-per-task strategy: one global counter,
//! one feed-scope counter, and one counter per site origin, each bounded by
//! its ceiling. Admission and release are modeled sequentially: a task is
//! admitted exactly when every counter it needs has room, and a refusal
//! stands for the caller blocking until room appears. Acquisition is always
//! total slot first, then scoped slot, so all call sites order their waits
//! the same way. No fairness is promised to the waiters: a refused caller
//! retries, and may be overtaken. Real blocking and waking live with the
//! caller.

use vstd::prelude::*;

verus! {

/// Ceiling for concurrently processed feeds.
pub const MAX_THREADS_FEEDS: u32 = 5;

/// Ceiling for concurrently processed articles of one site origin.
pub const MAX_THREADS_SITES: u32 = 10;

/// Ceiling for all in-flight tasks together.
pub const MAX_THREADS_TOTAL: u32 = 18;

/// A lock around some T, with a condition variable for notifying/waiting.
/// In this sequential model an acquisition always succeeds at once, so the
/// lock reduces to the data it guards; contention exists only at run time,
/// where the caller wraps the model in a real lock.
pub struct CvarLock<T> {
    data: T,
}

impl<T> CvarLock<T> {
    /// The guarded data.
    pub closed spec fn view(&self) -> T {
        self.data
    }

    /// A lock guarding `data`.
    pub fn new(data: T) -> (r: CvarLock<T>)
        ensures
            r@ == data,
    {
        CvarLock { data }
    }

    /// Acquires the lock for reading.
    pub fn lock(&self) -> (r: &T)
        ensures
            *r == self@,
    {
        &self.data
    }

    /// Acquires the lock for writing; the data afterwards is whatever the
    /// caller leaves behind the returned reference.
    pub fn lock_mut(&mut self) -> (r: &mut T)
        ensures
            *r == old(self)@,
            final(self)@ == *final(r),
    {
        &mut self.data
    }
}

/// One site origin and the number of its in-flight article tasks.
struct SiteCount {
    site: String,
    count: u32,
}

/// How many tasks of site `k` a pair sequence counts: the count of the one
/// pair keyed by `k`, or zero if there is none.
spec fn count_in(s: Seq<SiteCount>, k: Seq<char>) -> u32
    decreases s.len(),
{
    if s.len() == 0 {
        0
    } else if s.last().site@ == k {
        s.last().count
    } else {
        count_in(s.drop_last(), k)
    }
}

spec fn unique_sites(s: Seq<SiteCount>) -> bool {
    forall|i: int, j: int| 0 <= i < j < s.len() ==> s[i].site@ != s[j].site@
}

proof fn lemma_unique_sites_drop_last(s: Seq<SiteCount>)
    requires
        unique_sites(s),
        s.len() > 0,
    ensures
        unique_sites(s.drop_last()),
{
    assert forall|i: int, j: int|
        0 <= i < j < s.drop_last().len() implies s.drop_last()[i].site@
        != s.drop_last()[j].site@ by {
        assert(s.drop_last()[i] == s[i]);
        assert(s.drop_last()[j] == s[j]);
    };
}

/// A site no pair is keyed by counts zero.
proof fn lemma_count_absent(s: Seq<SiteCount>, k: Seq<char>)
    requires
        forall|j: int| 0 <= j < s.len() ==> s[j].site@ != k,
    ensures
        count_in(s, k) == 0,
    decreases s.len(),
{
    if s.len() > 0 {
        assert(s[s.len() - 1].site@ != k);
        assert forall|j: int| 0 <= j < s.drop_last().len() implies s.drop_last()[j].site@ != k by {
            assert(s.drop_last()[j] == s[j]);
        };
        lemma_count_absent(s.drop_last(), k);
    }
}

/// Under unique sites, each pair is the count of its own site.
proof fn lemma_count_index(s: Seq<SiteCount>, i: int)
    requires
        unique_sites(s),
        0 <= i < s.len(),
    ensures
        count_in(s, s[i].site@) == s[i].count,
    decreases s.len(),
{
    if i < s.len() - 1 {
        assert(s[s.len() - 1].site@ != s[i].site@);
        lemma_unique_sites_drop_last(s);
        lemma_count_index(s.drop_last(), i);
        assert(s.drop_last()[i] == s[i]);
    }
}

/// Replacing the one pair of a site changes that site's count and no other.
proof fn lemma_count_update(s: Seq<SiteCount>, i: int, e: SiteCount)
    requires
        unique_sites(s),
        0 <= i < s.len(),
        e.site@ == s[i].site@,
    ensures
        unique_sites(s.update(i, e)),
        forall|k: Seq<char>|
            count_in(s.update(i, e), k) == if k == e.site@ {
                e.count
            } else {
                count_in(s, k)
            },
    decreases s.len(),
{
    let t = s.update(i, e);
    assert forall|a: int, b: int| 0 <= a < b < t.len() implies t[a].site@ != t[b].site@ by {
        assert(t[a].site@ == s[a].site@);
        assert(t[b].site@ == s[b].site@);
    };
    if i == s.len() - 1 {
        assert(t.drop_last() =~= s.drop_last());
        assert forall|k: Seq<char>|
            count_in(t, k) == if k == e.site@ {
                e.count
            } else {
                count_in(s, k)
            } by {
            assert(t.last() == e);
        };
    } else {
        assert(t.drop_last() =~= s.drop_last().update(i, e));
        lemma_unique_sites_drop_last(s);
        assert(s.drop_last()[i] == s[i]);
        lemma_count_update(s.drop_last(), i, e);
        assert(t.last() == s.last());
        assert(s[s.len() - 1].site@ != s[i].site@);
        assert forall|k: Seq<char>|
            count_in(t, k) == (if k == e.site@ {
                e.count
            } else {
                count_in(s, k)
            }) by {
            if t.last().site@ != k {
                assert(count_in(t, k) == count_in(t.drop_last(), k));
                assert(count_in(s, k) == count_in(s.drop_last(), k));
            }
        };
    }
}

/// The per-site counters, one pair per site origin that was ever counted;
/// sites never counted stand at zero.
pub struct SiteCounts {
    pairs: Vec<SiteCount>,
}

impl SiteCounts {
    /// The in-flight count of site `k`.
    pub closed spec fn count(&self, k: Seq<char>) -> u32 {
        count_in(self.pairs@, k)
    }

    /// No site holds two pairs.
    pub closed spec fn wf(&self) -> bool {
        unique_sites(self.pairs@)
    }

    /// All counters at zero.
    pub fn new() -> (r: SiteCounts)
        ensures
            r.wf(),
            forall|k: Seq<char>| r.count(k) == 0,
    {
        let r = SiteCounts { pairs: Vec::new() };
        proof {
            assert forall|k: Seq<char>| r.count(k) == 0 by {
                lemma_count_absent(r.pairs@, k);
            };
        }
        r
    }

    /// The first position of the pair keyed by `site`, or the number of
    /// pairs if there is none.
    fn position_of(&self, site: &String) -> (r: usize)
        ensures
            r <= self.pairs@.len(),
            forall|j: int| 0 <= j < r ==> self.pairs@[j].site@ != site@,
            r < self.pairs@.len() ==> self.pairs@[r as int].site@ == site@,
    {
        let mut i: usize = 0;
        while i < self.pairs.len()
            invariant
                0 <= i <= self.pairs@.len(),
                forall|j: int| 0 <= j < i ==> self.pairs@[j].site@ != site@,
            decreases self.pairs@.len() - i,
        {
            if self.pairs[i].site == *site {
                return i;
            }
            i += 1;
        }
        i
    }

    /// Reads the counter of `site`.
    pub fn get(&self, site: &String) -> (r: u32)
        requires
            self.wf(),
        ensures
            r == self.count(site@),
    {
        let i = self.position_of(site);
        if i < self.pairs.len() {
            proof {
                lemma_count_index(self.pairs@, i as int);
            }
            self.pairs[i].count
        } else {
            proof {
                lemma_count_absent(self.pairs@, site@);
            }
            0
        }
    }

    /// Counts one more task of `site`.
    pub fn inc(&mut self, site: &String)
        requires
            old(self).wf(),
            old(self).count(site@) < u32::MAX,
        ensures
            final(self).wf(),
            final(self).count(site@) == old(self).count(site@) + 1,
            forall|k: Seq<char>| k != site@ ==> final(self).count(k) == old(self).count(k),
    {
        let ghost pre = self.pairs@;
        let i = self.position_of(site);
        if i < self.pairs.len() {
            proof {
                lemma_count_index(pre, i as int);
            }
            let c = self.pairs[i].count;
            self.pairs[i] = SiteCount { site: site.clone(), count: c + 1 };
            proof {
                assert(self.pairs@ =~= pre.update(i as int, self.pairs@[i as int]));
                lemma_count_update(pre, i as int, self.pairs@[i as int]);
            }
        } else {
            proof {
                lemma_count_absent(pre, site@);
            }
            self.pairs.push(SiteCount { site: site.clone(), count: 1 });
            proof {
                let n = pre.len() as int;
                assert(self.pairs@.drop_last() =~= pre);
                assert forall|a: int, b: int|
                    0 <= a < b < self.pairs@.len() implies self.pairs@[a].site@
                    != self.pairs@[b].site@ by {
                    if b < n {
                        assert(self.pairs@[a] == pre[a]);
                        assert(self.pairs@[b] == pre[b]);
                    } else {
                        assert(self.pairs@[a] == pre[a]);
                        assert(pre[a].site@ != site@);
                    }
                };
                assert forall|k: Seq<char>| k != site@ implies final(self).count(k) == count_in(
                    pre,
                    k,
                ) by {
                    assert(self.pairs@.last().site@ == site@);
                };
            }
        }
    }

    /// Counts one task of `site` as finished.
    pub fn dec(&mut self, site: &String)
        requires
            old(self).wf(),
            old(self).count(site@) > 0,
        ensures
            final(self).wf(),
            final(self).count(site@) == old(self).count(site@) - 1,
            forall|k: Seq<char>| k != site@ ==> final(self).count(k) == old(self).count(k),
    {
        let ghost pre = self.pairs@;
        let i = self.position_of(site);
        proof {
            if i == self.pairs@.len() {
                lemma_count_absent(pre, site@);
            }
        }
        proof {
            lemma_count_index(pre, i as int);
        }
        let c = self.pairs[i].count;
        self.pairs[i] = SiteCount { site: site.clone(), count: c - 1 };
        proof {
            assert(self.pairs@ =~= pre.update(i as int, self.pairs@[i as int]));
            lemma_count_update(pre, i as int, self.pairs@[i as int]);
        }
    }
}

/// Locks/Condvars around counters, tracking the number of feed tasks, the
/// number of article tasks per site origin, and the total number of tasks.
pub struct ThreadCount {
    feeds_count: CvarLock<u32>,
    sites_count: CvarLock<SiteCounts>,
    total_count: CvarLock<u32>,
}

impl ThreadCount {
    /// All in-flight tasks together.
    pub closed spec fn total(&self) -> u32 {
        self.total_count@
    }

    /// In-flight feed tasks.
    pub closed spec fn feeds(&self) -> u32 {
        self.feeds_count@
    }

    /// In-flight article tasks of site `k`.
    pub closed spec fn site(&self, k: Seq<char>) -> u32 {
        self.sites_count@.count(k)
    }

    /// Every counter within its ceiling; established at creation and
    /// preserved by every admission and every release.
    pub closed spec fn wf(&self) -> bool {
        &&& self.total() <= MAX_THREADS_TOTAL
        &&& self.feeds() <= MAX_THREADS_FEEDS
        &&& forall|k: Seq<char>| #[trigger] self.site(k) <= MAX_THREADS_SITES
        &&& self.sites_count@.wf()
    }

    /// All counters at zero.
    pub fn new() -> (r: ThreadCount)
        ensures
            r.wf(),
            r.total() == 0,
            r.feeds() == 0,
            forall|k: Seq<char>| #[trigger] r.site(k) == 0,
    {
        ThreadCount {
            feeds_count: CvarLock::new(0),
            sites_count: CvarLock::new(SiteCounts::new()),
            total_count: CvarLock::new(0),
        }
    }

    /// Admission of one feed task: takes a total slot and then a feed slot,
    /// exactly when both have room; a refusal stands for the caller waiting.
    pub fn try_admit_feed(&mut self) -> (r: bool)
        requires
            old(self).wf(),
        ensures
            final(self).wf(),
            r <==> (old(self).total() < MAX_THREADS_TOTAL && old(self).feeds()
                < MAX_THREADS_FEEDS),
            r ==> final(self).total() == old(self).total() + 1 && final(self).feeds() == old(
                self,
            ).feeds() + 1,
            !r ==> *final(self) == *old(self),
            forall|k: Seq<char>| #[trigger] final(self).site(k) == old(self).site(k),
    {
        let has_total = *self.total_count.lock() < MAX_THREADS_TOTAL;
        let has_feed = *self.feeds_count.lock() < MAX_THREADS_FEEDS;
        if has_total && has_feed {
            let t = self.total_count.lock_mut();
            *t = *t + 1;
            let f = self.feeds_count.lock_mut();
            *f = *f + 1;
            proof {
                assert forall|k: Seq<char>| #[trigger] self.site(k) == old(self).site(k) by {
                    assert(self.sites_count == old(self).sites_count);
                };
            }
            true
        } else {
            false
        }
    }

    /// Release of one feed task's slots, owed on every exit of the task,
    /// successful or not.
    pub fn release_feed(&mut self)
        requires
            old(self).wf(),
            old(self).total() > 0,
            old(self).feeds() > 0,
        ensures
            final(self).wf(),
            final(self).total() == old(self).total() - 1,
            final(self).feeds() == old(self).feeds() - 1,
            forall|k: Seq<char>| #[trigger] final(self).site(k) == old(self).site(k),
    {
        let t = self.total_count.lock_mut();
        *t = *t - 1;
        let f = self.feeds_count.lock_mut();
        *f = *f - 1;
        proof {
            assert forall|k: Seq<char>| #[trigger] self.site(k) == old(self).site(k) by {
                assert(self.sites_count == old(self).sites_count);
            };
        }
    }

    /// Admission of one article task of site `site`: takes a total slot and
    /// then a site slot, exactly when both have room.
    pub fn try_admit_article(&mut self, site: &String) -> (r: bool)
        requires
            old(self).wf(),
        ensures
            final(self).wf(),
            r <==> (old(self).total() < MAX_THREADS_TOTAL && old(self).site(site@)
                < MAX_THREADS_SITES),
            r ==> final(self).total() == old(self).total() + 1 && final(self).site(site@) == old(
                self,
            ).site(site@) + 1,
            r ==> forall|k: Seq<char>|
                k != site@ ==> #[trigger] final(self).site(k) == old(self).site(k),
            !r ==> *final(self) == *old(self),
            final(self).feeds() == old(self).feeds(),
    {
        let has_total = *self.total_count.lock() < MAX_THREADS_TOTAL;
        let has_site = self.sites_count.lock().get(site) < MAX_THREADS_SITES;
        if has_total && has_site {
            let t = self.total_count.lock_mut();
            *t = *t + 1;
            let sc = self.sites_count.lock_mut();
            sc.inc(site);
            proof {
                assert forall|k: Seq<char>| #[trigger] self.site(k) <= MAX_THREADS_SITES by {
                    if k == site@ {
                        assert(self.site(k) == old(self).site(k) + 1);
                    } else {
                        assert(self.site(k) == old(self).site(k));
                    }
                };
            }
            true
        } else {
            false
        }
    }

    /// Release of one article task's slots, owed on every exit of the task,
    /// successful or not.
    pub fn release_article(&mut self, site: &String)
        requires
            old(self).wf(),
            old(self).total() > 0,
            old(self).site(site@) > 0,
        ensures
            final(self).wf(),
            final(self).total() == old(self).total() - 1,
            final(self).site(site@) == old(self).site(site@) - 1,
            forall|k: Seq<char>|
                k != site@ ==> #[trigger] final(self).site(k) == old(self).site(k),
            final(self).feeds() == old(self).feeds(),
    {
        let t = self.total_count.lock_mut();
        *t = *t - 1;
        let sc = self.sites_count.lock_mut();
        sc.dec(site);
        proof {
            assert forall|k: Seq<char>| #[trigger] self.site(k) <= MAX_THREADS_SITES by {
                if k == site@ {
                    assert(self.site(k) == old(self).site(k) - 1);
                } else {
                    assert(self.site(k) == old(self).site(k));
                }
            };
        }
    }

    /// Reads the total counter, for instrumentation.
    pub fn total_now(&self) -> (r: u32)
        ensures
            r == self.total(),
    {
        *self.total_count.lock()
    }

    /// Reads the feed counter, for instrumentation.
    pub fn feeds_now(&self) -> (r: u32)
        ensures
            r == self.feeds(),
    {
        *self.feeds_count.lock()
    }

    /// Reads the counter of one site, for instrumentation.
    pub fn site_now(&self, site: &String) -> (r: u32)
        requires
            self.wf(),
        ensures
            r == self.site(site@),
    {
        self.sites_count.lock().get(site)
    }
}

/// Law: at every instant of a run — that is, in every well-formed counter
/// state, since every operation of `ThreadCount` yields one — the global
/// in-flight count is at most the total ceiling, the feed count at most the
/// feed ceiling, and every site's count at most the per-site ceiling.
pub proof fn lemma_gate_respects_ceilings(tc: ThreadCount)
    requires
        tc.wf(),
    ensures
        tc.total() <= MAX_THREADS_TOTAL,
        tc.feeds() <= MAX_THREADS_FEEDS,
        forall|k: Seq<char>| #[trigger] tc.site(k) <= MAX_THREADS_SITES,
{
}

} // verus!
