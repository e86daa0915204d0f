use events_radar::git_history::{format_date_to_iso8601, parse_git_diff, parse_subdomain_from_yaml_line};
use events_radar::GitInfo;

#[test]
fn yaml_top_level_keys() {
    assert_eq!(parse_subdomain_from_yaml_line("foo: bar"), Some("foo".to_string()));
    assert_eq!(parse_subdomain_from_yaml_line("my-site_2:"), Some("my-site_2".to_string()));
    assert_eq!(parse_subdomain_from_yaml_line("\tfoo :x"), Some("foo".to_string()));
    assert_eq!(parse_subdomain_from_yaml_line("caf\u{e9}: x"), Some("caf\u{e9}".to_string()));
}

#[test]
fn yaml_lines_that_are_not_keys() {
    assert_eq!(parse_subdomain_from_yaml_line(" foo: bar"), None);
    assert_eq!(parse_subdomain_from_yaml_line(""), None);
    assert_eq!(parse_subdomain_from_yaml_line("no colon here"), None);
    assert_eq!(parse_subdomain_from_yaml_line("a.b: x"), None);
    assert_eq!(parse_subdomain_from_yaml_line("two words: x"), None);
    assert_eq!(parse_subdomain_from_yaml_line("  : x"), None);
    assert_eq!(parse_subdomain_from_yaml_line(": x"), None);
}

#[test]
fn dates_in_iso_form_are_kept() {
    assert_eq!(format_date_to_iso8601("2024-02-19T10:30:00Z"), Ok("2024-02-19T10:30:00Z".to_string()));
}

#[test]
fn dates_in_git_form_are_converted() {
    assert_eq!(
        format_date_to_iso8601("Mon Feb 19 10:30:00 2024 +0000"),
        Ok("2024-02-19T10:30:00Z".to_string())
    );
    assert_eq!(
        format_date_to_iso8601("Tue Feb 20 09:00:00 2024 +0200"),
        Ok("2024-02-20T09:00:00+02:00".to_string())
    );
    assert_eq!(
        format_date_to_iso8601("Mon, 19 Feb 2024 10:30:00 +0000"),
        Ok("2024-02-19T10:30:00Z".to_string())
    );
    assert_eq!(
        format_date_to_iso8601("Mon,  19 Feb 2024  10:30:00 +0000"),
        Ok("2024-02-19T10:30:00Z".to_string())
    );
}

#[test]
fn unreadable_dates_are_errors() {
    assert_eq!(
        format_date_to_iso8601("garbage"),
        Err("Could not parse date: garbage".to_string())
    );
}

fn info<'a>(h: &'a [(String, GitInfo)], key: &str) -> &'a GitInfo {
    &h.iter().find(|(k, _)| k == key).unwrap().1
}

#[test]
fn history_tracks_first_and_last_change() {
    let diff = "commit 1111\n\
Author: A <a@example.com>\n\
Date:   Mon Feb 19 10:30:00 2024 +0000\n\
\n\
    add foo\n\
\n\
diff --git a/hackclub.com.yaml b/hackclub.com.yaml\n\
--- a/hackclub.com.yaml\n\
+++ b/hackclub.com.yaml\n\
@@ -1,2 +1,4 @@\n\
+foo:\n\
+  - type: CNAME\n\
commit 2222\n\
Date:   Tue Feb 20 10:30:00 2024 +0000\r\n\
-foo:\n\
+bar:\n";
    let mut history: Vec<(String, GitInfo)> = Vec::new();
    parse_git_diff(diff, &mut history);
    assert_eq!(history.len(), 2);
    let foo = info(&history, "foo");
    assert_eq!(foo.first_added.as_deref(), Some("2024-02-19T10:30:00Z"));
    assert_eq!(foo.last_modified.as_deref(), Some("2024-02-20T10:30:00Z"));
    let bar = info(&history, "bar");
    assert_eq!(bar.first_added.as_deref(), Some("2024-02-20T10:30:00Z"));
    assert_eq!(bar.last_modified.as_deref(), Some("2024-02-20T10:30:00Z"));
}

#[test]
fn history_ignores_commits_without_readable_date() {
    let diff = "Date: not a date\n+foo:\n";
    let mut history: Vec<(String, GitInfo)> = Vec::new();
    parse_git_diff(diff, &mut history);
    assert!(history.is_empty());
    parse_git_diff("", &mut history);
    assert!(history.is_empty());
}
