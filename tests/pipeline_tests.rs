use events_radar::pipeline::{concat_records, records_or_empty, StageProgress};
use events_radar::probe::{entries_of, probe_result, success_jobs, targets_from_hosts, target_url};
use events_radar::ratelimit::{tick_interval_ms, RateLimiter};
use events_radar::{Hackathon, ProbeResult};

fn ok_probe(url: &str, status: u16, body: &str) -> ProbeResult {
    probe_result(url, Ok((status, Ok(body.to_string()))))
}

fn record(name: &str) -> Hackathon {
    Hackathon {
        name: name.to_string(),
        url: format!("http://{}.example.com", name),
        dates: "Unknown".to_string(),
        summary: "...".to_string(),
    }
}

#[test]
fn probe_outcome_has_one_shape() {
    let a = ok_probe("http://a.example.com", 200, "<html>hi</html>");
    assert_eq!(a.subdomain, "http://a.example.com");
    assert_eq!(a.status, Some(200));
    assert_eq!(a.content.as_deref(), Some("<html>hi</html>"));
    assert!(a.error.is_none());

    let b = probe_result("http://b.example.com", Ok((502, Err("body read failed".to_string()))));
    assert_eq!(b.status, Some(502));
    assert!(b.content.is_none());
    assert_eq!(b.error.as_deref(), Some("body read failed"));

    let c = probe_result("http://c.example.com", Err("timed out".to_string()));
    assert!(c.status.is_none());
    assert!(c.content.is_none());
    assert_eq!(c.error.as_deref(), Some("timed out"));
}

#[test]
fn stage_two_input_boundaries() {
    let probes = vec![
        ok_probe("http://ok.example.com", 399, "x"),
        ok_probe("http://bad.example.com", 400, "y"),
        probe_result("http://nobody.example.com", Ok((200, Err("reset".to_string())))),
        probe_result("http://down.example.com", Err("dns".to_string())),
        ok_probe("http://fine.example.com", 200, "z"),
    ];
    let jobs = success_jobs(&probes);
    assert_eq!(jobs.len(), 2);
    assert_eq!(jobs[0].url, "http://ok.example.com");
    assert_eq!(jobs[0].content, "x");
    assert_eq!(jobs[1].url, "http://fine.example.com");
    assert_eq!(jobs[1].content, "z");
}

#[test]
fn entries_report_body_bytes() {
    let probes = vec![
        ok_probe("http://a.example.com", 200, "h\u{e9}llo"),
        probe_result("http://b.example.com", Err("refused".to_string())),
    ];
    let entries = entries_of(&probes);
    assert_eq!(entries.len(), 2);
    assert_eq!(entries[0].bytes, Some(6));
    assert_eq!(entries[0].status, Some(200));
    assert_eq!(entries[1].bytes, None);
    assert_eq!(entries[1].error.as_deref(), Some("refused"));
}

#[test]
fn targets_skip_empty_names() {
    let names = vec!["a".to_string(), "".to_string(), "b".to_string()];
    let targets = targets_from_hosts(&names, "example.com");
    assert_eq!(targets, vec!["http://a.example.com".to_string(), "http://b.example.com".to_string()]);
    assert_eq!(target_url("x", "hackclub.com"), "http://x.hackclub.com");
}

/// Drives a stage over `n` items, finishing the oldest in-flight item first
/// or, every third step, the newest.
fn drive(n: usize, width: usize) -> (usize, usize, Vec<usize>) {
    let mut stage = StageProgress::new(n, width);
    let mut in_flight: Vec<usize> = Vec::new();
    let mut max_seen = 0;
    let mut counters = Vec::new();
    let mut step = 0;
    loop {
        while stage.can_dispatch() {
            in_flight.push(stage.dispatch());
        }
        assert_eq!(stage.in_flight(), in_flight.len());
        max_seen = max_seen.max(stage.in_flight());
        if in_flight.is_empty() {
            break;
        }
        step += 1;
        if step % 3 == 0 {
            in_flight.pop();
        } else {
            in_flight.remove(0);
        }
        counters.push(stage.complete());
    }
    assert!(stage.is_done());
    (stage.completed(), max_seen, counters)
}

#[test]
fn stage_counts_every_item_once() {
    for n in [0usize, 1, 5, 20, 57] {
        let (completed, _, counters) = drive(n, 4);
        assert_eq!(completed, n);
        assert_eq!(counters, (1..=n).collect::<Vec<_>>());
    }
}

#[test]
fn stage_never_exceeds_width() {
    let (completed, max_seen, _) = drive(50, 7);
    assert_eq!(completed, 50);
    assert_eq!(max_seen, 7);
    let (_, max_small, _) = drive(3, 20);
    assert_eq!(max_small, 3);
}

#[test]
fn stage_dispatches_in_input_order() {
    let mut stage = StageProgress::new(3, 2);
    assert_eq!(stage.dispatch(), 0);
    assert_eq!(stage.dispatch(), 1);
    assert!(!stage.can_dispatch());
    assert_eq!(stage.complete(), 1);
    assert!(stage.can_dispatch());
    assert_eq!(stage.dispatch(), 2);
    assert!(!stage.can_dispatch());
    assert_eq!(stage.total(), 3);
}

#[test]
fn records_concatenate_in_order() {
    let parts = vec![vec![record("a"), record("b")], vec![], vec![record("c")]];
    let all = concat_records(parts);
    let names: Vec<&str> = all.iter().map(|h| h.name.as_str()).collect();
    assert_eq!(names, vec!["a", "b", "c"]);
}

#[test]
fn failed_call_contributes_nothing() {
    assert!(records_or_empty(Err("unauthorized".to_string())).is_empty());
    let kept = records_or_empty(Ok(vec![record("x")]));
    assert_eq!(kept.len(), 1);
    assert_eq!(kept[0].name, "x");
}

#[test]
fn bucket_starts_with_one_permit() {
    let mut b = RateLimiter::new(40);
    assert_eq!(b.available_permits(), 1);
    assert_eq!(b.max_outstanding(), 40);
    assert_eq!(b.requests_per_minute(), 40);
    assert!(b.try_acquire());
    assert!(!b.try_acquire());
    assert_eq!(b.available_permits(), 0);
}

#[test]
fn bucket_fills_to_cap_only() {
    let mut b = RateLimiter::with_max_outstanding(40, 3);
    let mut added = 0;
    for _ in 0..10 {
        if b.tick() {
            added += 1;
        }
        assert!(b.available_permits() <= 3);
    }
    assert_eq!(added, 2);
    assert_eq!(b.available_permits(), 3);
}

#[test]
fn permits_are_granted_once() {
    let mut b = RateLimiter::with_max_outstanding(60, 5);
    b.tick();
    b.tick();
    let granted = (0..5).filter(|_| b.try_acquire()).count();
    assert_eq!(granted, 3);
    assert_eq!(b.available_permits(), 0);
}

#[test]
fn tick_interval_splits_the_minute() {
    assert_eq!(tick_interval_ms(40), 1500);
    assert_eq!(tick_interval_ms(60), 1000);
    assert_eq!(tick_interval_ms(7), 8571);
    assert_eq!(tick_interval_ms(0), u64::MAX);
    assert_eq!(RateLimiter::new(120).tick_interval_ms(), 500);
}
