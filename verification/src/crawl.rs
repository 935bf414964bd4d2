//! The orchestrator's decision core, shared by both concurrency strategies:
//! parsing a feed document into entries, validating and deduplicating them,
//! and planning the feed and article tasks a run must dispatch. Parsing the
//! wire format and splitting a URL are the work of outside collaborators,
//! relied on behind narrow contracts; fetching bytes over the network and
//! dispatching the planned tasks to threads live with the caller, which
//! hands every fetched document back in as plain bytes.

use vstd::prelude::*;
use crate::RssIndexError;
use crate::RssIndexResult;
use crate::common::SeenSet;

verus! {

/// One entry of a parsed feed document: an optional link and an optional
/// title, exactly as the wire format had them.
#[derive(Debug)]
pub struct FeedEntry {
    pub link: Option<String>,
    pub title: Option<String>,
}

impl FeedEntry {
    /// Builds an entry from its parts.
    pub fn new(link: Option<String>, title: Option<String>) -> (r: FeedEntry)
        ensures
            r.link == link,
            r.title == title,
    {
        FeedEntry { link, title }
    }
}

/// The text of one entry: its link and its title, either may be absent.
pub type EntryView = (Option<Seq<char>>, Option<Seq<char>>);

/// What an entry reads as.
pub open spec fn entry_view(e: FeedEntry) -> EntryView {
    (
        match e.link {
            Some(l) => Some(l@),
            None => None,
        },
        match e.title {
            Some(t) => Some(t@),
            None => None,
        },
    )
}

/// What a sequence of entries reads as.
pub open spec fn entry_views(s: Seq<FeedEntry>) -> Seq<EntryView> {
    s.map_values(|e: FeedEntry| entry_view(e))
}

/// What `rss::Channel::read_from` reads out of a byte sequence: the entries
/// of the document, or nothing if the bytes are not a well-formed feed.
pub uninterp spec fn channel_entries(bytes: Seq<u8>) -> Option<Seq<EntryView>>;

/// What `url::Url::parse` and `url::Url::host_str` make of a URL's text:
/// nothing if the text is not an absolute URL, otherwise its host component,
/// which some URLs lack.
pub uninterp spec fn url_host(s: Seq<char>) -> Option<Option<Seq<char>>>;

/// Relies on rss::Channel::read_from: a deterministic parser, so the
/// entries read from a byte sequence are a function of the bytes alone, and
/// malformed bytes are reported as an error. Each parsed item's link and
/// title are handed on unchanged.
#[verifier::external_body]
fn read_channel_entries(bytes: &Vec<u8>) -> (r: RssIndexResult<Vec<FeedEntry>>)
    ensures
        (match r {
            Ok(v) => channel_entries(bytes@) is Some && entry_views(v@) == channel_entries(
                bytes@,
            ).unwrap(),
            Err(e) => channel_entries(bytes@) is None && e == RssIndexError::ParseError,
        }),
{
    match rss::Channel::read_from(&bytes[..]) {
        Ok(channel) => {
            let mut entries: Vec<FeedEntry> = Vec::new();
            for item in channel.into_items() {
                entries.push(FeedEntry {
                    link: item.link().map(str::to_string),
                    title: item.title().map(str::to_string),
                });
            }
            Ok(entries)
        },
        Err(_) => Err(RssIndexError::ParseError),
    }
}

/// Relies on url::Url::parse and url::Url::host_str: parsing is
/// deterministic, so a URL's host component is a function of its text
/// alone; text that is no absolute URL is reported as an error, and a
/// parsed URL may have no host.
#[verifier::external_body]
fn parse_url_host(s: &String) -> (r: RssIndexResult<Option<String>>)
    ensures
        (match r {
            Ok(Some(h)) => url_host(s@) is Some && url_host(s@).unwrap() is Some && h@ == url_host(
                s@,
            ).unwrap().unwrap(),
            Ok(None) => url_host(s@) is Some && url_host(s@).unwrap() is None,
            Err(e) => url_host(s@) is None && e == RssIndexError::UrlError,
        }),
{
    match url::Url::parse(s.as_str()) {
        Ok(u) => Ok(u.host_str().map(str::to_string)),
        Err(_) => Err(RssIndexError::UrlError),
    }
}

/// One feed task the seed plans: the feed's URL and its title.
#[derive(Debug, PartialEq, Eq)]
pub struct FeedJob {
    pub url: String,
    pub title: String,
}

/// One article task a feed plans: the site origin the article is charged
/// to — the host of the feed's URL, not the article's — its title, and its
/// URL.
#[derive(Debug, PartialEq, Eq)]
pub struct ArticleJob {
    pub site: String,
    pub title: String,
    pub url: String,
}

/// The view of a feed task: (url, title).
pub type FeedJobView = (Seq<char>, Seq<char>);

/// The view of an article task: (site, title, url).
pub type ArticleJobView = (Seq<char>, Seq<char>, Seq<char>);

/// What a sequence of feed tasks reads as.
pub open spec fn feed_job_views(s: Seq<FeedJob>) -> Seq<FeedJobView> {
    s.map_values(|j: FeedJob| (j.url@, j.title@))
}

/// What a sequence of article tasks reads as.
pub open spec fn article_job_views(s: Seq<ArticleJob>) -> Seq<ArticleJobView> {
    s.map_values(|j: ArticleJob| (j.site@, j.title@, j.url@))
}

/// Whether every entry has both its link and its title.
pub open spec fn all_fields_present(es: Seq<EntryView>) -> bool {
    forall|i: int| 0 <= i < es.len() ==> (#[trigger] es[i]).0 is Some && es[i].1 is Some
}

/// The feed tasks a seed's entries plan, in file order, each URL at most
/// once: an entry whose URL was already seen plans nothing. Meaningful only
/// when every field is present; a run refuses the seed otherwise.
pub open spec fn seed_jobs(es: Seq<EntryView>, seen: Set<Seq<char>>) -> Seq<FeedJobView>
    decreases es.len(),
{
    if es.len() == 0 {
        Seq::empty()
    } else {
        let u = es[0].0.unwrap();
        let t = es[0].1.unwrap();
        if seen.contains(u) {
            seed_jobs(es.drop_first(), seen)
        } else {
            seq![(u, t)] + seed_jobs(es.drop_first(), seen.insert(u))
        }
    }
}

/// The feed-level dedup set after a seed's entries: every entry's URL is in.
pub open spec fn seen_after_seed(es: Seq<EntryView>, seen: Set<Seq<char>>) -> Set<Seq<char>>
    decreases es.len(),
{
    if es.len() == 0 {
        seen
    } else {
        seen_after_seed(es.drop_first(), seen.insert(es[0].0.unwrap()))
    }
}

/// The article tasks a feed's entries plan for site `site`, in document
/// order: an entry missing its link or its title plans nothing and is
/// passed over silently, and an entry whose URL was already seen plans
/// nothing.
pub open spec fn article_jobs(es: Seq<EntryView>, seen: Set<Seq<char>>, site: Seq<char>) -> Seq<
    ArticleJobView,
>
    decreases es.len(),
{
    if es.len() == 0 {
        Seq::empty()
    } else {
        let e = es[0];
        if e.0 is Some && e.1 is Some {
            if seen.contains(e.0.unwrap()) {
                article_jobs(es.drop_first(), seen, site)
            } else {
                seq![(site, e.1.unwrap(), e.0.unwrap())] + article_jobs(
                    es.drop_first(),
                    seen.insert(e.0.unwrap()),
                    site,
                )
            }
        } else {
            article_jobs(es.drop_first(), seen, site)
        }
    }
}

/// The article-level dedup set after a feed's entries: the URL of every
/// entry whose fields are both present is in.
pub open spec fn seen_after_articles(es: Seq<EntryView>, seen: Set<Seq<char>>) -> Set<Seq<char>>
    decreases es.len(),
{
    if es.len() == 0 {
        seen
    } else {
        let e = es[0];
        if e.0 is Some && e.1 is Some {
            seen_after_articles(es.drop_first(), seen.insert(e.0.unwrap()))
        } else {
            seen_after_articles(es.drop_first(), seen)
        }
    }
}

/// The decisions of one crawl run: which feeds and which articles are new.
/// The feed-level and article-level dedup sets are separate instances, each
/// shared across the whole run.
pub struct Crawler {
    feed_seen: SeenSet,
    article_seen: SeenSet,
}

impl Crawler {
    /// The feed URLs seen so far.
    pub closed spec fn feeds_seen(&self) -> Set<Seq<char>> {
        self.feed_seen@
    }

    /// The article URLs seen so far.
    pub closed spec fn articles_seen(&self) -> Set<Seq<char>> {
        self.article_seen@
    }

    /// A fresh run: nothing seen yet.
    pub fn new() -> (r: Crawler)
        ensures
            r.feeds_seen() == Set::<Seq<char>>::empty(),
            r.articles_seen() == Set::<Seq<char>>::empty(),
    {
        Crawler { feed_seen: SeenSet::new(), article_seen: SeenSet::new() }
    }

    /// Plans the feed tasks of a seed document. The bytes must parse, and
    /// every entry must carry both link and title: a malformed entry is
    /// fatal, the whole seed is refused and nothing is planned or marked
    /// seen. Otherwise the entries are deduplicated in file order and one
    /// task is planned per new feed URL.
    #[verifier::loop_isolation(false)]
    pub fn plan_seed(&mut self, bytes: &Vec<u8>) -> (r: RssIndexResult<Vec<FeedJob>>)
        ensures
            final(self).articles_seen() == old(self).articles_seen(),
            (match channel_entries(bytes@) {
                None => r == Err::<Vec<FeedJob>, RssIndexError>(RssIndexError::ParseError)
                    && final(self).feeds_seen() == old(self).feeds_seen(),
                Some(es) => {
                    if all_fields_present(es) {
                        &&& r is Ok
                        &&& feed_job_views(r.unwrap()@) == seed_jobs(es, old(self).feeds_seen())
                        &&& final(self).feeds_seen() == seen_after_seed(
                            es,
                            old(self).feeds_seen(),
                        )
                    } else {
                        &&& r == Err::<Vec<FeedJob>, RssIndexError>(
                            RssIndexError::MissingFieldError,
                        )
                        &&& final(self).feeds_seen() == old(self).feeds_seen()
                    }
                },
            }),
    {
        let entries = match read_channel_entries(bytes) {
            Ok(v) => v,
            Err(e) => {
                return Err(e);
            },
        };
        let ghost es = entry_views(entries@);
        let mut i: usize = 0;
        while i < entries.len()
            invariant
                0 <= i <= entries@.len(),
                es == entry_views(entries@),
                self.feed_seen == old(self).feed_seen,
                self.article_seen == old(self).article_seen,
                forall|j: int| 0 <= j < i ==> (#[trigger] es[j]).0 is Some && es[j].1 is Some,
            decreases entries@.len() - i,
        {
            if entries[i].link.is_none() || entries[i].title.is_none() {
                proof {
                    assert(es[i as int] == entry_view(entries@[i as int]));
                    assert(!all_fields_present(es));
                }
                return Err(RssIndexError::MissingFieldError);
            }
            proof {
                assert(es[i as int] == entry_view(entries@[i as int]));
            }
            i += 1;
        }
        let ghost seen_start = self.feeds_seen();
        let mut jobs: Vec<FeedJob> = Vec::new();
        proof {
            assert(es.skip(0) =~= es);
            assert(feed_job_views(jobs@) =~= Seq::<FeedJobView>::empty());
            assert(feed_job_views(jobs@) + seed_jobs(es, seen_start) =~= seed_jobs(
                es,
                seen_start,
            ));
        }
        let mut i: usize = 0;
        while i < entries.len()
            invariant
                0 <= i <= entries@.len(),
                es == entry_views(entries@),
                all_fields_present(es),
                self.article_seen == old(self).article_seen,
                seed_jobs(es, seen_start) == feed_job_views(jobs@) + seed_jobs(
                    es.skip(i as int),
                    self.feeds_seen(),
                ),
                seen_after_seed(es, seen_start) == seen_after_seed(
                    es.skip(i as int),
                    self.feeds_seen(),
                ),
            decreases entries@.len() - i,
        {
            let ghost jobs0 = jobs@;
            let ghost seen0 = self.feeds_seen();
            proof {
                assert(es[i as int] == entry_view(entries@[i as int]));
                assert(es.skip(i as int)[0] == es[i as int]);
                assert(es.skip(i as int).drop_first() =~= es.skip(i as int + 1));
            }
            let e = &entries[i];
            match (&e.link, &e.title) {
                (Some(url), Some(title)) => {
                    if self.feed_seen.check_and_insert(url) {
                        jobs.push(FeedJob { url: url.clone(), title: title.clone() });
                        proof {
                            assert(feed_job_views(jobs@) =~= feed_job_views(jobs0).push(
                                (url@, title@),
                            ));
                            assert(feed_job_views(jobs0) + (seq![(url@, title@)] + seed_jobs(
                                es.skip(i as int + 1),
                                seen0.insert(url@),
                            )) =~= feed_job_views(jobs@) + seed_jobs(
                                es.skip(i as int + 1),
                                seen0.insert(url@),
                            ));
                        }
                    } else {
                        proof {
                            assert(self.feeds_seen() =~= seen0);
                        }
                    }
                },
                _ => {
                    // Unreachable: every entry was validated above.
                    proof {
                        assert(false);
                    }
                },
            }
            i += 1;
        }
        proof {
            assert(es.skip(entries@.len() as int) =~= Seq::<EntryView>::empty());
            assert(feed_job_views(jobs@) + seed_jobs(
                es.skip(entries@.len() as int),
                self.feeds_seen(),
            ) =~= feed_job_views(jobs@));
        }
        Ok(jobs)
    }

    /// Plans the article tasks of one fetched feed. The bytes must parse
    /// and the feed's own URL must name a host: every planned article is
    /// charged to that site origin. An entry missing its link or its title
    /// is passed over silently — unlike a seed entry, it is not fatal — and
    /// an already-seen article URL plans nothing. A feed whose URL parses
    /// but names no host plans nothing at all.
    #[verifier::loop_isolation(false)]
    pub fn plan_feed(&mut self, feed_url: &String, bytes: &Vec<u8>) -> (r: RssIndexResult<
        Vec<ArticleJob>,
    >)
        ensures
            final(self).feeds_seen() == old(self).feeds_seen(),
            (match channel_entries(bytes@) {
                None => r == Err::<Vec<ArticleJob>, RssIndexError>(RssIndexError::ParseError)
                    && final(self).articles_seen() == old(self).articles_seen(),
                Some(es) => {
                    match url_host(feed_url@) {
                        None => r == Err::<Vec<ArticleJob>, RssIndexError>(RssIndexError::UrlError)
                            && final(self).articles_seen() == old(self).articles_seen(),
                        Some(None) => r is Ok && r.unwrap()@.len() == 0
                            && final(self).articles_seen() == old(self).articles_seen(),
                        Some(Some(h)) => {
                            &&& r is Ok
                            &&& article_job_views(r.unwrap()@) == article_jobs(
                                es,
                                old(self).articles_seen(),
                                h,
                            )
                            &&& final(self).articles_seen() == seen_after_articles(
                                es,
                                old(self).articles_seen(),
                            )
                        },
                    }
                },
            }),
    {
        let entries = match read_channel_entries(bytes) {
            Ok(v) => v,
            Err(e) => {
                return Err(e);
            },
        };
        let host = match parse_url_host(feed_url) {
            Ok(Some(h)) => h,
            Ok(None) => {
                return Ok(Vec::new());
            },
            Err(e) => {
                return Err(e);
            },
        };
        let ghost es = entry_views(entries@);
        let ghost seen_start = self.articles_seen();
        let mut jobs: Vec<ArticleJob> = Vec::new();
        proof {
            assert(es.skip(0) =~= es);
            assert(article_job_views(jobs@) =~= Seq::<ArticleJobView>::empty());
            assert(article_job_views(jobs@) + article_jobs(es, seen_start, host@) =~= article_jobs(
                es,
                seen_start,
                host@,
            ));
        }
        let mut i: usize = 0;
        while i < entries.len()
            invariant
                0 <= i <= entries@.len(),
                es == entry_views(entries@),
                host@ == url_host(feed_url@).unwrap().unwrap(),
                self.feed_seen == old(self).feed_seen,
                article_jobs(es, seen_start, host@) == article_job_views(jobs@) + article_jobs(
                    es.skip(i as int),
                    self.articles_seen(),
                    host@,
                ),
                seen_after_articles(es, seen_start) == seen_after_articles(
                    es.skip(i as int),
                    self.articles_seen(),
                ),
            decreases entries@.len() - i,
        {
            let ghost jobs0 = jobs@;
            let ghost seen0 = self.articles_seen();
            proof {
                assert(es[i as int] == entry_view(entries@[i as int]));
                assert(es.skip(i as int)[0] == es[i as int]);
                assert(es.skip(i as int).drop_first() =~= es.skip(i as int + 1));
            }
            let e = &entries[i];
            match (&e.link, &e.title) {
                (Some(url), Some(title)) => {
                    if self.article_seen.check_and_insert(url) {
                        jobs.push(
                            ArticleJob {
                                site: host.clone(),
                                title: title.clone(),
                                url: url.clone(),
                            },
                        );
                        proof {
                            assert(article_job_views(jobs@) =~= article_job_views(jobs0).push(
                                (host@, title@, url@),
                            ));
                            assert(article_job_views(jobs0) + (seq![(host@, title@, url@)]
                                + article_jobs(
                                es.skip(i as int + 1),
                                seen0.insert(url@),
                                host@,
                            )) =~= article_job_views(jobs@) + article_jobs(
                                es.skip(i as int + 1),
                                seen0.insert(url@),
                                host@,
                            ));
                        }
                    } else {
                        proof {
                            assert(self.articles_seen() =~= seen0);
                        }
                    }
                },
                _ => {},
            }
            i += 1;
        }
        proof {
            assert(es.skip(entries@.len() as int) =~= Seq::<EntryView>::empty());
            assert(article_job_views(jobs@) + article_jobs(
                es.skip(entries@.len() as int),
                self.articles_seen(),
                host@,
            ) =~= article_job_views(jobs@));
        }
        Ok(jobs)
    }
}

/// Law: planning is a function of the document and the dedup state alone.
/// Two runs from equal states over equal entries plan equal jobs and leave
/// equal states — so processing one seed twice into two fresh runs, with
/// the collaborators returning the same documents, builds structurally
/// identical indexes.
pub proof fn lemma_planning_deterministic(
    es: Seq<EntryView>,
    seen1: Set<Seq<char>>,
    seen2: Set<Seq<char>>,
    site: Seq<char>,
)
    requires
        seen1 == seen2,
    ensures
        seed_jobs(es, seen1) == seed_jobs(es, seen2),
        seen_after_seed(es, seen1) == seen_after_seed(es, seen2),
        article_jobs(es, seen1, site) == article_jobs(es, seen2, site),
        seen_after_articles(es, seen1) == seen_after_articles(es, seen2),
{
}

} // verus!
