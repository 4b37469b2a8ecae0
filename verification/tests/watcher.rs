use oswatch::watcher::search_request;
use oswatch::watcher::Document;
use oswatch::watcher::RawEntry;
use oswatch::watcher::WatchError;
use oswatch::watcher::Watcher;
use oswatch::watcher::{poll_page, PAGE_SIZE};

fn micros(ts: &str) -> i64 {
    chrono::DateTime::parse_from_rfc3339(ts)
        .unwrap()
        .timestamp_micros()
}

fn entry(ts: &str, payload: &str) -> RawEntry {
    RawEntry {
        timestamp_text: ts.to_string(),
        payload: payload.to_string(),
    }
}

#[test]
fn three_new_documents_in_order() {
    // Backend returns T3 > T2 > T1, all newer than the watermark T0:
    // expect three emissions in order T3, T2, T1 and a final watermark of T3.
    let t0 = micros("2024-05-01T00:00:00Z");
    let page = vec![
        entry("2024-05-01T00:00:03Z", "{\"n\":3}"),
        entry("2024-05-01T00:00:02Z", "{\"n\":2}"),
        entry("2024-05-01T00:00:01Z", "{\"n\":1}"),
    ];
    let (docs, wm) = poll_page(&page, t0).unwrap();
    assert_eq!(docs.len(), 3);
    assert_eq!(docs[0].timestamp, micros("2024-05-01T00:00:03Z"));
    assert_eq!(docs[1].timestamp, micros("2024-05-01T00:00:02Z"));
    assert_eq!(docs[2].timestamp, micros("2024-05-01T00:00:01Z"));
    assert_eq!(docs[0].payload, "{\"n\":3}");
    assert_eq!(docs[1].payload, "{\"n\":2}");
    assert_eq!(docs[2].payload, "{\"n\":1}");
    assert_eq!(wm, micros("2024-05-01T00:00:03Z"));
    // No replay, and the watermark never moved backwards.
    for d in &docs {
        assert!(d.timestamp > t0);
    }
    assert!(wm >= t0);
}

#[test]
fn page_cap_is_one_hundred() {
    assert_eq!(PAGE_SIZE, 100);
    let r = search_request();
    assert_eq!(r.from, 0);
    assert_eq!(r.size, 100);
    assert!(r.sort_descending_by_timestamp);
}

#[test]
fn cap_behavior_150_new_documents() {
    // 150 documents newer than the watermark, sorted descending; the
    // backend truncates to the newest 100, and all of those are emitted.
    let t0 = micros("2024-05-01T00:00:00Z");
    let mut all: Vec<RawEntry> = Vec::new();
    for i in (1..=150u32).rev() {
        all.push(entry(
            &format!("2024-05-01T00:02:{:02}.{:06}Z", i / 60, (i % 60) * 1000),
            "{}",
        ));
    }
    // Newest-first page of 100, as the backend returns it.
    let page: Vec<RawEntry> = all.into_iter().take(100).collect();
    let newest = page[0].timestamp_text.clone();
    let (docs, wm) = poll_page(&page, t0).unwrap();
    assert_eq!(docs.len(), 100);
    assert_eq!(wm, micros(&newest));
    for (i, d) in docs.iter().enumerate() {
        assert_eq!(d.timestamp, micros(&page[i].timestamp_text));
    }
}

#[test]
fn stops_at_watermark() {
    // Only the entries strictly newer than the watermark are emitted; the
    // walk stops at the first entry at or below it.
    let t0 = micros("2024-05-01T00:00:02Z");
    let page = vec![
        entry("2024-05-01T00:00:04Z", "new"),
        entry("2024-05-01T00:00:03Z", "new"),
        entry("2024-05-01T00:00:02Z", "old"),
        entry("2024-05-01T00:00:01Z", "old"),
    ];
    let (docs, wm) = poll_page(&page, t0).unwrap();
    assert_eq!(docs.len(), 2);
    assert_eq!(wm, micros("2024-05-01T00:00:04Z"));
}

#[test]
fn idempotent_repoll() {
    // Two consecutive cycles with no new backend documents leave the
    // watermark unchanged and emit nothing.
    let t0 = micros("2024-05-01T00:00:00Z");
    let page = vec![
        entry("2024-05-01T00:00:03Z", "a"),
        entry("2024-05-01T00:00:02Z", "b"),
    ];
    let (docs, wm1) = poll_page(&page, t0).unwrap();
    assert_eq!(docs.len(), 2);
    // The backend returns the same page again: nothing new.
    let (docs2, wm2) = poll_page(&page, wm1).unwrap();
    assert_eq!(docs2.len(), 0);
    assert_eq!(wm2, wm1);
    let (docs3, wm3) = poll_page(&page, wm2).unwrap();
    assert_eq!(docs3.len(), 0);
    assert_eq!(wm3, wm1);
}

#[test]
fn stale_page_never_moves_watermark_backwards() {
    // Every entry is older than the watermark (documents rotated out of
    // the backend between polls): nothing is emitted and the watermark
    // stays put instead of regressing.
    let t0 = micros("2024-05-01T00:00:10Z");
    let page = vec![
        entry("2024-05-01T00:00:03Z", "old"),
        entry("2024-05-01T00:00:02Z", "old"),
    ];
    let (docs, wm) = poll_page(&page, t0).unwrap();
    assert_eq!(docs.len(), 0);
    assert_eq!(wm, t0);
}

#[test]
fn empty_page_changes_nothing() {
    let t0 = micros("2024-05-01T00:00:00Z");
    let page: Vec<RawEntry> = Vec::new();
    let (docs, wm) = poll_page(&page, t0).unwrap();
    assert_eq!(docs.len(), 0);
    assert_eq!(wm, t0);
}

#[test]
fn invalid_timestamp_is_fatal() {
    let t0 = micros("2024-05-01T00:00:00Z");
    let page = vec![
        entry("2024-05-01T00:00:03Z", "ok"),
        entry("not a timestamp", "bad"),
    ];
    match poll_page(&page, t0) {
        Err(WatchError::InvalidTimestamp(t)) => assert_eq!(t, "not a timestamp"),
        _ => panic!("expected an invalid-timestamp error"),
    }
}

#[test]
fn unreached_invalid_timestamp_is_ignored() {
    // The walk stops before the malformed entry, so the cycle succeeds.
    let t0 = micros("2024-05-01T00:00:02Z");
    let page = vec![
        entry("2024-05-01T00:00:03Z", "new"),
        entry("2024-05-01T00:00:01Z", "old"),
        entry("not a timestamp", "never examined"),
    ];
    let (docs, wm) = poll_page(&page, t0).unwrap();
    assert_eq!(docs.len(), 1);
    assert_eq!(wm, micros("2024-05-01T00:00:03Z"));
}

#[test]
fn watcher_polls_one_rule_at_a_time() {
    let start = micros("2024-05-01T00:00:00Z");
    let mut w = Watcher::new(vec!["logs".to_string()], 15, 2, start);
    assert_eq!(w.interval_secs, 15);
    assert_eq!(w.cursors.len(), 2);
    assert_eq!(w.cursors[0].last_checked_time, start);
    assert_eq!(w.cursors[1].last_checked_time, start);

    let page = vec![entry("2024-05-01T00:00:05Z", "x")];
    let docs: Vec<Document> = w.poll_rule(0, &page).unwrap();
    assert_eq!(docs.len(), 1);
    assert_eq!(w.cursors[0].last_checked_time, micros("2024-05-01T00:00:05Z"));
    // The other rule's cursor is untouched.
    assert_eq!(w.cursors[1].last_checked_time, start);
}
