use rss_indexer::crawl::{ArticleJob, Crawler, FeedEntry, FeedJob};
use rss_indexer::common::ArticleIndex;
use rss_indexer::RssIndexError;

/// Builds the bytes of a feed document whose items carry the given optional
/// links and titles.
fn feed_xml(items: &[(Option<&str>, Option<&str>)]) -> Vec<u8> {
    let mut s = String::from(
        "<rss version=\"2.0\"><channel><title>c</title><link>http://c/</link><description>d</description>",
    );
    for (link, title) in items {
        s.push_str("<item>");
        if let Some(l) = link {
            s.push_str(&format!("<link>{}</link>", l));
        }
        if let Some(t) = title {
            s.push_str(&format!("<title>{}</title>", t));
        }
        s.push_str("</item>");
    }
    s.push_str("</channel></rss>");
    s.into_bytes()
}

#[test]
fn plan_seed_extracts_entries() {
    let mut c = Crawler::new();
    let bytes = feed_xml(&[
        (Some("http://a/feed"), Some("Feed A")),
        (Some("http://b/feed"), Some("Feed B")),
    ]);
    let jobs: Vec<FeedJob> = c.plan_seed(&bytes).unwrap();
    assert_eq!(jobs.len(), 2);
    assert_eq!(jobs[0].url, "http://a/feed");
    assert_eq!(jobs[0].title, "Feed A");
    assert_eq!(jobs[1].url, "http://b/feed");
    assert_eq!(jobs[1].title, "Feed B");
}

#[test]
fn plan_seed_duplicate_feed_is_skipped() {
    // Two feed entries with the identical link: the second is skipped and
    // only one feed task is planned.
    let mut c = Crawler::new();
    let bytes = feed_xml(&[
        (Some("http://a/feed"), Some("First")),
        (Some("http://a/feed"), Some("Second")),
    ]);
    let jobs = c.plan_seed(&bytes).unwrap();
    assert_eq!(jobs.len(), 1);
    assert_eq!(jobs[0].url, "http://a/feed");
    assert_eq!(jobs[0].title, "First");
}

#[test]
fn plan_seed_dedups_across_calls() {
    let mut c = Crawler::new();
    let bytes = feed_xml(&[(Some("http://a/feed"), Some("First"))]);
    let jobs = c.plan_seed(&bytes).unwrap();
    assert_eq!(jobs.len(), 1);
    let jobs = c.plan_seed(&bytes).unwrap();
    assert_eq!(jobs.len(), 0);
}

#[test]
fn plan_seed_missing_link_is_fatal() {
    let mut c = Crawler::new();
    let bytes = feed_xml(&[
        (Some("http://a/feed"), Some("Feed A")),
        (None, Some("No link")),
    ]);
    assert_eq!(c.plan_seed(&bytes), Err(RssIndexError::MissingFieldError));
}

#[test]
fn plan_seed_missing_title_is_fatal() {
    let mut c = Crawler::new();
    let bytes = feed_xml(&[(Some("http://a/feed"), None)]);
    assert_eq!(c.plan_seed(&bytes), Err(RssIndexError::MissingFieldError));
}

#[test]
fn plan_seed_refused_seed_marks_nothing_seen() {
    let mut c = Crawler::new();
    let bad = feed_xml(&[(Some("http://a/feed"), Some("A")), (None, None)]);
    assert_eq!(c.plan_seed(&bad), Err(RssIndexError::MissingFieldError));
    // The refused seed inserted nothing, so the same URL still plans a task.
    let good = feed_xml(&[(Some("http://a/feed"), Some("A"))]);
    assert_eq!(c.plan_seed(&good).unwrap().len(), 1);
}

#[test]
fn plan_seed_malformed_bytes() {
    let mut c = Crawler::new();
    let bytes = b"this is no feed document".to_vec();
    assert_eq!(c.plan_seed(&bytes), Err(RssIndexError::ParseError));
}

#[test]
fn plan_seed_empty_feed() {
    let mut c = Crawler::new();
    let bytes = feed_xml(&[]);
    assert_eq!(c.plan_seed(&bytes).unwrap().len(), 0);
}

#[test]
fn plan_feed_site_is_feed_host() {
    // The site origin is the host of the feed's URL, not the article's.
    let mut c = Crawler::new();
    let feed_url = String::from("http://feedhost/rss");
    let bytes = feed_xml(&[(Some("http://elsewhere/story"), Some("Story"))]);
    let jobs: Vec<ArticleJob> = c.plan_feed(&feed_url, &bytes).unwrap();
    assert_eq!(jobs.len(), 1);
    assert_eq!(jobs[0].site, "feedhost");
    assert_eq!(jobs[0].title, "Story");
    assert_eq!(jobs[0].url, "http://elsewhere/story");
}

#[test]
fn plan_feed_missing_title_skips_entry() {
    // One article entry lacking its title is skipped, the run goes on, and
    // the index ends with zero entries for that feed.
    let mut c = Crawler::new();
    let feed_url = String::from("http://a/feed");
    let bytes = feed_xml(&[(Some("http://a/story"), None)]);
    let jobs = c.plan_feed(&feed_url, &bytes).unwrap();
    assert_eq!(jobs.len(), 0);
    let mut index = ArticleIndex::new();
    for job in jobs {
        index.add(job.site, job.title, job.url, vec![]);
    }
    assert_eq!(index.len(), 0);
}

#[test]
fn plan_feed_missing_link_skips_entry_only() {
    let mut c = Crawler::new();
    let feed_url = String::from("http://a/feed");
    let bytes = feed_xml(&[
        (None, Some("No link")),
        (Some("http://a/two"), Some("Two")),
    ]);
    let jobs = c.plan_feed(&feed_url, &bytes).unwrap();
    assert_eq!(jobs.len(), 1);
    assert_eq!(jobs[0].title, "Two");
}

#[test]
fn plan_feed_duplicate_article_is_skipped() {
    let mut c = Crawler::new();
    let feed_url = String::from("http://a/feed");
    let bytes = feed_xml(&[
        (Some("http://a/story"), Some("Once")),
        (Some("http://a/story"), Some("Again")),
    ]);
    let jobs = c.plan_feed(&feed_url, &bytes).unwrap();
    assert_eq!(jobs.len(), 1);
    assert_eq!(jobs[0].title, "Once");
}

#[test]
fn plan_feed_dedup_is_shared_across_feeds() {
    // The article-level dedup set is one instance for the whole run, not
    // per feed.
    let mut c = Crawler::new();
    let bytes = feed_xml(&[(Some("http://x/story"), Some("Story"))]);
    let jobs = c.plan_feed(&String::from("http://a/feed"), &bytes).unwrap();
    assert_eq!(jobs.len(), 1);
    let jobs = c.plan_feed(&String::from("http://b/feed"), &bytes).unwrap();
    assert_eq!(jobs.len(), 0);
}

#[test]
fn plan_feed_unparsable_feed_url() {
    let mut c = Crawler::new();
    let bytes = feed_xml(&[(Some("http://a/story"), Some("Story"))]);
    assert_eq!(
        c.plan_feed(&String::from("not a url at all"), &bytes),
        Err(RssIndexError::UrlError)
    );
}

#[test]
fn plan_feed_url_without_host_plans_nothing() {
    let mut c = Crawler::new();
    let bytes = feed_xml(&[(Some("http://a/story"), Some("Story"))]);
    let jobs = c
        .plan_feed(&String::from("data:text/plain,feed"), &bytes)
        .unwrap();
    assert_eq!(jobs.len(), 0);
}

#[test]
fn plan_feed_malformed_bytes() {
    let mut c = Crawler::new();
    let bytes = b"<html>not a feed</html>".to_vec();
    assert_eq!(
        c.plan_feed(&String::from("http://a/feed"), &bytes),
        Err(RssIndexError::ParseError)
    );
}

#[test]
fn failed_fetch_is_task_local() {
    // Five articles are planned; the fetch collaborator fails for one of
    // them. The other four are indexed and the run still completes.
    let mut c = Crawler::new();
    let feed_url = String::from("http://site/feed");
    let bytes = feed_xml(&[
        (Some("http://site/1"), Some("One")),
        (Some("http://site/2"), Some("Two")),
        (Some("http://site/3"), Some("Three")),
        (Some("http://site/4"), Some("Four")),
        (Some("http://site/5"), Some("Five")),
    ]);
    let jobs = c.plan_feed(&feed_url, &bytes).unwrap();
    assert_eq!(jobs.len(), 5);
    let mut index = ArticleIndex::new();
    for job in jobs {
        // The mocked fetch fails for the third article alone.
        let fetched: Result<Vec<String>, RssIndexError> = if job.url == "http://site/3" {
            Err(RssIndexError::FetchError)
        } else {
            Ok(vec![String::from("word")])
        };
        match fetched {
            Ok(words) => index.add(job.site, job.title, job.url, words),
            Err(_) => {
                // Task-local failure: nothing is indexed for this article,
                // the remaining tasks go on.
            }
        }
    }
    assert_eq!(index.len(), 4);
    assert!(index
        .get(&String::from("site"), &String::from("Three"))
        .is_none());
    assert!(index
        .get(&String::from("site"), &String::from("Four"))
        .is_some());
}

#[test]
fn same_seed_twice_builds_identical_indexes() {
    // Two fresh runs over the same seed and the same fetched documents
    // build structurally identical indexes.
    let seed = feed_xml(&[(Some("http://a/feed"), Some("Feed A"))]);
    let feed = feed_xml(&[
        (Some("http://a/1"), Some("One")),
        (Some("http://a/2"), Some("Two")),
    ]);
    let mut built: Vec<ArticleIndex> = Vec::new();
    for reversed in [false, true] {
        let mut c = Crawler::new();
        let mut index = ArticleIndex::new();
        let feeds = c.plan_seed(&seed).unwrap();
        assert_eq!(feeds.len(), 1);
        let mut articles = c.plan_feed(&feeds[0].url, &feed).unwrap();
        if reversed {
            // Completion order across workers is unspecified; the index
            // must not depend on it.
            articles.reverse();
        }
        for job in articles {
            index.add(job.site, job.title.clone(), job.url, vec![job.title]);
        }
        built.push(index);
    }
    let site = String::from("a");
    for index in &built {
        assert_eq!(index.len(), 2);
        let one = index.get(&site, &String::from("One")).unwrap();
        assert_eq!(one.url, "http://a/1");
        assert_eq!(one.words, vec![String::from("One")]);
        let two = index.get(&site, &String::from("Two")).unwrap();
        assert_eq!(two.url, "http://a/2");
        assert_eq!(two.words, vec![String::from("Two")]);
    }
}

#[test]
fn feed_entry_new_keeps_parts() {
    let e = FeedEntry::new(Some(String::from("l")), None);
    assert_eq!(e.link, Some(String::from("l")));
    assert_eq!(e.title, None);
}
