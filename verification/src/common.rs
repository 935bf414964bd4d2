//! Shared data of a crawl run: articles, the dedup set of already-seen URLs,
//! and the index that accumulates every processed article.

use vstd::prelude::*;

verus! {

/// One article discovered in a feed: its URL and its title.
#[derive(Debug)]
pub struct Article {
    pub url: String,
    pub title: String,
}

impl Article {
    /// Builds an article from its URL and title.
    pub fn new(url: String, title: String) -> (r: Article)
        ensures
            r.url == url,
            r.title == title,
    {
        Article { url, title }
    }
}

/// A set of URL strings already seen during one run. Membership test and
/// insertion are exposed only as the single operation `check_and_insert`,
/// so no caller can interleave a check with an insert.
pub struct SeenSet {
    urls: Vec<String>,
}

/// The one-step transition of the dedup set: the answer (was the key new?)
/// and the set afterwards, which contains the key either way.
pub open spec fn check_spec(s: Set<Seq<char>>, k: Seq<char>) -> (bool, Set<Seq<char>>) {
    (!s.contains(k), s.insert(k))
}

impl SeenSet {
    /// The set of URLs seen so far.
    pub closed spec fn view(&self) -> Set<Seq<char>> {
        Set::new(|k: Seq<char>| exists|i: int| 0 <= i < self.urls@.len() && self.urls@[i]@ == k)
    }

    /// A fresh, empty set.
    pub fn new() -> (r: SeenSet)
        ensures
            r@ == Set::<Seq<char>>::empty(),
    {
        let r = SeenSet { urls: Vec::new() };
        proof {
            assert(r@ =~= Set::<Seq<char>>::empty());
        }
        r
    }

    /// Returns true and inserts `url` if it was not yet present; returns
    /// false and leaves the set unchanged if it was. Check and insert are
    /// one indivisible operation of this type.
    pub fn check_and_insert(&mut self, url: &String) -> (r: bool)
        ensures
            (r, final(self)@) == check_spec(old(self)@, url@),
    {
        let mut i: usize = 0;
        while i < self.urls.len()
            invariant
                0 <= i <= self.urls@.len(),
                self == old(self),
                forall|j: int| 0 <= j < i ==> self.urls@[j]@ != url@,
            decreases self.urls@.len() - i,
        {
            if self.urls[i] == *url {
                proof {
                    assert(self.urls@[i as int]@ == url@);
                    assert(old(self)@.contains(url@));
                    assert(self@ =~= old(self)@.insert(url@));
                }
                return false;
            }
            i += 1;
        }
        proof {
            assert(!old(self)@.contains(url@));
        }
        let n: usize = self.urls.len();
        self.urls.push(url.clone());
        proof {
            assert(self.urls@[n as int]@ == url@);
            assert forall|k: Seq<char>| self@.contains(k) implies old(self)@.insert(
                url@,
            ).contains(k) by {
                let i = choose|i: int| 0 <= i < self.urls@.len() && self.urls@[i]@ == k;
                if i < n {
                    assert(old(self).urls@[i]@ == k);
                    assert(old(self)@.contains(k));
                }
            };
            assert forall|k: Seq<char>| old(self)@.insert(url@).contains(k) implies self@.contains(
                k,
            ) by {
                if k != url@ {
                    let i = choose|i: int|
                        0 <= i < old(self).urls@.len() && old(self).urls@[i]@ == k;
                    assert(self.urls@[i]@ == k);
                }
            };
            assert(self@ =~= old(self)@.insert(url@));
        }
        true
    }
}

/// One record of the index: an article, its word list, and the site it was
/// found on.
#[derive(Debug)]
pub struct IndexEntry {
    pub site: String,
    pub title: String,
    pub url: String,
    pub words: Vec<String>,
}

/// An index record is keyed by its site and its title.
pub type IndexKey = (Seq<char>, Seq<char>);

/// Under its key, the index holds the article's URL and its word list.
pub type IndexValue = (Seq<char>, Seq<Seq<char>>);

/// The key of one record.
pub open spec fn entry_key(e: IndexEntry) -> IndexKey {
    (e.site@, e.title@)
}

/// The value of one record.
pub open spec fn entry_value(e: IndexEntry) -> IndexValue {
    (e.url@, e.words.deep_view())
}

/// The mapping that a sequence of records denotes; a later record of a key
/// supersedes an earlier one.
pub open spec fn map_of(s: Seq<IndexEntry>) -> Map<IndexKey, IndexValue>
    decreases s.len(),
{
    if s.len() == 0 {
        Map::empty()
    } else {
        map_of(s.drop_last()).insert(entry_key(s.last()), entry_value(s.last()))
    }
}

/// No two records of the sequence share a key.
pub open spec fn unique_keys(s: Seq<IndexEntry>) -> bool {
    forall|i: int, j: int|
        0 <= i < j < s.len() ==> entry_key(s[i]) != entry_key(s[j])
}

proof fn lemma_unique_keys_drop_last(s: Seq<IndexEntry>)
    requires
        unique_keys(s),
        s.len() > 0,
    ensures
        unique_keys(s.drop_last()),
{
    assert forall|i: int, j: int| 0 <= i < j < s.drop_last().len() implies entry_key(
        s.drop_last()[i],
    ) != entry_key(s.drop_last()[j]) by {
        assert(s.drop_last()[i] == s[i]);
        assert(s.drop_last()[j] == s[j]);
    };
}

/// Which keys the denoted mapping holds: exactly the keys of the records.
proof fn lemma_map_of_contains(s: Seq<IndexEntry>, k: IndexKey)
    ensures
        map_of(s).contains_key(k) <==> exists|i: int| 0 <= i < s.len() && entry_key(s[i]) == k,
    decreases s.len(),
{
    if s.len() > 0 {
        lemma_map_of_contains(s.drop_last(), k);
        if entry_key(s.last()) == k {
            assert(entry_key(s[s.len() - 1]) == k);
        } else if map_of(s).contains_key(k) {
            let i = choose|i: int| 0 <= i < s.drop_last().len() && entry_key(s.drop_last()[i]) == k;
            assert(entry_key(s[i]) == k);
        } else if exists|i: int| 0 <= i < s.len() && entry_key(s[i]) == k {
            let i = choose|i: int| 0 <= i < s.len() && entry_key(s[i]) == k;
            assert(i < s.len() - 1);
            assert(entry_key(s.drop_last()[i]) == k);
        }
    }
}

/// Under unique keys, each record is the mapping's witness for its key.
proof fn lemma_map_of_index(s: Seq<IndexEntry>, i: int)
    requires
        unique_keys(s),
        0 <= i < s.len(),
    ensures
        map_of(s).contains_key(entry_key(s[i])),
        map_of(s)[entry_key(s[i])] == entry_value(s[i]),
    decreases s.len(),
{
    if i < s.len() - 1 {
        lemma_unique_keys_drop_last(s);
        lemma_map_of_index(s.drop_last(), i);
        assert(s.drop_last()[i] == s[i]);
        assert(entry_key(s[s.len() - 1]) != entry_key(s[i]));
    }
}

/// Replacing the one record of a key denotes the same mapping as inserting
/// the replacement.
proof fn lemma_map_of_update(s: Seq<IndexEntry>, i: int, e: IndexEntry)
    requires
        unique_keys(s),
        0 <= i < s.len(),
        entry_key(e) == entry_key(s[i]),
    ensures
        map_of(s.update(i, e)) == map_of(s).insert(entry_key(e), entry_value(e)),
    decreases s.len(),
{
    let t = s.update(i, e);
    if i == s.len() - 1 {
        assert(t.drop_last() =~= s.drop_last());
        assert(t.last() == e);
        assert(map_of(t) =~= map_of(s).insert(entry_key(e), entry_value(e)));
    } else {
        assert(t.drop_last() =~= s.drop_last().update(i, e));
        lemma_unique_keys_drop_last(s);
        assert(s.drop_last()[i] == s[i]);
        lemma_map_of_update(s.drop_last(), i, e);
        assert(t.last() == s.last());
        assert(entry_key(s[s.len() - 1]) != entry_key(s[i]));
        assert(map_of(t) =~= map_of(s).insert(entry_key(e), entry_value(e)));
    }
}

/// Under unique keys, the mapping has exactly one element per record.
proof fn lemma_map_of_dom_len(s: Seq<IndexEntry>)
    requires
        unique_keys(s),
    ensures
        map_of(s).dom().finite(),
        map_of(s).dom().len() == s.len(),
    decreases s.len(),
{
    if s.len() == 0 {
        assert(map_of(s).dom() =~= Set::<IndexKey>::empty());
    } else {
        lemma_unique_keys_drop_last(s);
        lemma_map_of_dom_len(s.drop_last());
        lemma_map_of_contains(s.drop_last(), entry_key(s.last()));
        assert forall|i: int|
            0 <= i < s.drop_last().len() implies entry_key(s.drop_last()[i]) != entry_key(
            s.last(),
        ) by {
            assert(s.drop_last()[i] == s[i]);
            assert(entry_key(s[i]) != entry_key(s[s.len() - 1]));
        };
        assert(!map_of(s.drop_last()).contains_key(entry_key(s.last())));
        assert(map_of(s).dom() =~= map_of(s.drop_last()).dom().insert(entry_key(s.last())));
    }
}

/// The shared accumulator of a run: a mapping from (site, title) to the
/// article's URL and word list, written through the single operation `add`.
pub struct ArticleIndex {
    entries: Vec<IndexEntry>,
}

impl ArticleIndex {
    /// The mapping accumulated so far.
    pub closed spec fn view(&self) -> Map<IndexKey, IndexValue> {
        map_of(self.entries@)
    }

    /// The records hold no key twice; `new` establishes this and `add`
    /// preserves it.
    pub closed spec fn wf(&self) -> bool {
        unique_keys(self.entries@)
    }

    /// A fresh, empty index.
    pub fn new() -> (r: ArticleIndex)
        ensures
            r@ == Map::<IndexKey, IndexValue>::empty(),
            r.wf(),
    {
        ArticleIndex { entries: Vec::new() }
    }

    /// The first position whose record is keyed by (site, title), or the
    /// number of records if there is none.
    fn position_of(&self, site: &String, title: &String) -> (r: usize)
        ensures
            r <= self.entries@.len(),
            forall|j: int| 0 <= j < r ==> entry_key(self.entries@[j]) != (site@, title@),
            r < self.entries@.len() ==> entry_key(self.entries@[r as int]) == (site@, title@),
    {
        let mut i: usize = 0;
        while i < self.entries.len()
            invariant
                0 <= i <= self.entries@.len(),
                forall|j: int| 0 <= j < i ==> entry_key(self.entries@[j]) != (site@, title@),
            decreases self.entries@.len() - i,
        {
            if self.entries[i].site == *site && self.entries[i].title == *title {
                return i;
            }
            i += 1;
        }
        i
    }

    /// Records one processed article: afterwards the mapping holds exactly
    /// (url, words) under (site, title) and is unchanged elsewhere. Creates
    /// the entry if the key is new, replaces it if not.
    pub fn add(&mut self, site: String, title: String, url: String, words: Vec<String>)
        requires
            old(self).wf(),
        ensures
            final(self).wf(),
            final(self)@ == old(self)@.insert((site@, title@), (url@, words.deep_view())),
    {
        let ghost pre = self.entries@;
        let ghost k = (site@, title@);
        let i = self.position_of(&site, &title);
        let e = IndexEntry { site, title, url, words };
        let ghost ev = e;
        if i < self.entries.len() {
            self.entries[i] = e;
            proof {
                assert(self.entries@ =~= pre.update(i as int, ev));
                lemma_map_of_update(pre, i as int, ev);
                assert forall|a: int, b: int|
                    0 <= a < b < self.entries@.len() implies entry_key(self.entries@[a])
                    != entry_key(self.entries@[b]) by {
                    assert(entry_key(self.entries@[a]) == entry_key(pre[a]));
                    assert(entry_key(self.entries@[b]) == entry_key(pre[b]));
                };
            }
        } else {
            self.entries.push(e);
            proof {
                assert(self.entries@.drop_last() =~= pre);
                assert(self.entries@.last() == ev);
                assert(map_of(self.entries@) == map_of(pre).insert(entry_key(ev), entry_value(ev)));
                assert forall|a: int, b: int|
                    0 <= a < b < self.entries@.len() implies entry_key(self.entries@[a])
                    != entry_key(self.entries@[b]) by {
                    if b < pre.len() {
                        assert(entry_key(pre[a]) != entry_key(pre[b]));
                    } else {
                        assert(entry_key(self.entries@[a]) == entry_key(pre[a]));
                        assert(entry_key(pre[a]) != k);
                    }
                };
            }
        }
    }

    /// Looks one article up by its key; `Some` exactly when the mapping
    /// holds the key, and then the record agrees with the mapping.
    pub fn get(&self, site: &String, title: &String) -> (r: Option<&IndexEntry>)
        requires
            self.wf(),
        ensures
            (match r {
                Some(e) => self@.contains_key((site@, title@)) && entry_key(*e) == (site@, title@)
                    && entry_value(*e) == self@[(site@, title@)],
                None => !self@.contains_key((site@, title@)),
            }),
    {
        let i = self.position_of(site, title);
        if i < self.entries.len() {
            proof {
                lemma_map_of_index(self.entries@, i as int);
            }
            Some(&self.entries[i])
        } else {
            proof {
                lemma_map_of_contains(self.entries@, (site@, title@));
            }
            None
        }
    }

    /// How many articles the index holds: one per key of the mapping.
    pub fn len(&self) -> (r: usize)
        requires
            self.wf(),
        ensures
            r == self@.dom().len(),
    {
        proof {
            lemma_map_of_dom_len(self.entries@);
        }
        self.entries.len()
    }
}

/// Law: one `add` creates or replaces exactly the entry of its own
/// (site, title) key. Afterwards that key maps to the given value, every
/// other key maps exactly as before, and no write is lost or duplicated,
/// however many writers' calls were serialized into the sequence of adds.
pub proof fn lemma_add_exact(m: Map<IndexKey, IndexValue>, k: IndexKey, v: IndexValue)
    ensures
        m.insert(k, v).contains_key(k),
        m.insert(k, v)[k] == v,
        forall|k2: IndexKey| k2 != k ==> (m.insert(k, v).contains_key(k2) <==> m.contains_key(k2)),
        forall|k2: IndexKey| k2 != k && m.contains_key(k2) ==> m.insert(k, v)[k2] == m[k2],
{
}

/// Law: adds of distinct keys commute, so the mapping a run accumulates does
/// not depend on the order in which its distinct articles complete.
pub proof fn lemma_add_order_irrelevant(
    m: Map<IndexKey, IndexValue>,
    k1: IndexKey,
    v1: IndexValue,
    k2: IndexKey,
    v2: IndexValue,
)
    requires
        k1 != k2,
    ensures
        m.insert(k1, v1).insert(k2, v2) == m.insert(k2, v2).insert(k1, v1),
{
    assert(m.insert(k1, v1).insert(k2, v2) =~= m.insert(k2, v2).insert(k1, v1));
}

/// Law: among any number of presentations of one key to the dedup set,
/// exactly the first `check_and_insert` answers true. After any call on a
/// key the set contains that key, so every later call on the same key
/// answers false.
pub proof fn lemma_check_and_insert_at_most_once(s: Set<Seq<char>>, k: Seq<char>)
    ensures
        check_spec(s, k).0 == !s.contains(k),
        check_spec(s, k).1.contains(k),
        !check_spec(check_spec(s, k).1, k).0,
{
}

} // verus!
