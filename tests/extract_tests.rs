use events_radar::extract::{
    bearer_header, build_prompt, clean_reply, extraction_outcome, truncate_chars, PROMPT_CLOSING,
    PROMPT_FIELDS, PROMPT_OPENING,
};
use events_radar::pipeline::concat_records;
use events_radar::probe::{probe_result, success_jobs, targets_from_hosts};
use events_radar::Hackathon;

#[test]
fn long_body_is_cut_to_limit() {
    let body: String = "\u{e9}".repeat(30);
    let cut = truncate_chars(&body, 12);
    assert_eq!(cut.chars().count(), 12);
    assert_eq!(cut, "\u{e9}".repeat(12));
}

#[test]
fn short_body_is_sent_unchanged() {
    assert_eq!(truncate_chars("<html>hi</html>", 15), "<html>hi</html>");
    assert_eq!(truncate_chars("<html>hi</html>", 12000), "<html>hi</html>");
    assert_eq!(truncate_chars("", 0), "");
}

#[test]
fn prompt_embeds_target_and_truncated_body() {
    let p = build_prompt("http://a.example.com", "abcdef", 4);
    let expected = format!(
        "{}http://a.example.com{}http://a.example.com{}abcd",
        PROMPT_OPENING, PROMPT_FIELDS, PROMPT_CLOSING
    );
    assert_eq!(p, expected);
    assert!(p.starts_with("You are a hackathon finder."));
    assert!(p.ends_with("HTML:\nabcd"));
}

#[test]
fn bearer_header_prefixes_key() {
    assert_eq!(bearer_header("k123"), "Bearer k123");
}

#[test]
fn fenced_reply_is_unwrapped() {
    assert_eq!(clean_reply(Some("```json\n[]\n```")), "[]");
    assert_eq!(clean_reply(Some("  ```\n[{\"a\":1}]\n```\n")), "[{\"a\":1}]");
    assert_eq!(clean_reply(Some("```json```json[1]``````")), "[1]");
    assert_eq!(clean_reply(Some("\t[]  ")), "[]");
}

#[test]
fn missing_reply_text_reads_as_empty_array() {
    assert_eq!(clean_reply(None), "[]");
}

#[test]
fn malformed_reply_yields_no_records() {
    let prose = clean_reply(Some("Sorry, I could not find any events."));
    assert!(serde_json::from_str::<serde_json::Value>(&prose).is_err());
    let fenced = clean_reply(Some("```json\nnot json at all\n```"));
    assert_eq!(fenced, "not json at all");
    assert!(serde_json::from_str::<serde_json::Value>(&fenced).is_err());
    let r = extraction_outcome(Ok(None));
    assert_eq!(r.map(|v| v.len()), Ok(0));
}

#[test]
fn network_failure_stays_an_error() {
    let r = extraction_outcome(Err("401 unauthorized".to_string()));
    assert!(matches!(r, Err(ref e) if e == "401 unauthorized"));
}

#[test]
fn end_to_end_two_hosts() {
    let hosts = vec!["a".to_string(), "b".to_string()];
    let targets = targets_from_hosts(&hosts, "example.com");
    assert_eq!(targets, vec!["http://a.example.com", "http://b.example.com"]);
    let probes = vec![
        probe_result(&targets[0], Ok((200, Ok("<html>hi</html>".to_string())))),
        probe_result(&targets[1], Err("connection refused".to_string())),
    ];
    let jobs = success_jobs(&probes);
    assert_eq!(jobs.len(), 1);
    assert_eq!(jobs[0].url, "http://a.example.com");
    assert_eq!(jobs[0].content, "<html>hi</html>");
    let foo = Hackathon {
        name: "Foo".to_string(),
        url: "http://a.example.com".to_string(),
        dates: "Unknown".to_string(),
        summary: "...".to_string(),
    };
    let outcome = extraction_outcome(Ok(Some(vec![foo.clone()]))).unwrap();
    let all = concat_records(vec![outcome]);
    assert_eq!(all.len(), 1);
    assert_eq!(all[0].name, "Foo");
    assert_eq!(all[0].url, "http://a.example.com");
    assert_eq!(all[0].dates, "Unknown");
    assert_eq!(all[0].summary, "...");
}
