use workspace_core::github::{
    github_issue_from_json, github_pull_request_from_json, make_issues_response,
    make_pull_requests_response, pull_request_diff_from_json, sync_issues, sync_pull_requests,
    TransportFault,
};
use workspace_core::history::{order_branches, reconcile_log, GitQueryData};
use workspace_core::types::BranchInfo;
use workspace_core::json::JsonValue;
use workspace_core::status::{count_diff_lines, diff_for_path, summarize_changes, RawFileChange};
use workspace_core::types::{CoreError, GitHubIssue, GitLogEntry};

fn obj(fields: Vec<(&str, JsonValue)>) -> JsonValue {
    JsonValue::Obj(fields.into_iter().map(|(k, v)| (k.to_string(), v)).collect())
}

fn commit(sha: &str, ts: i64) -> GitLogEntry {
    GitLogEntry {
        sha: sha.to_string(),
        summary: format!("commit {sha}"),
        author: "ada".to_string(),
        timestamp: ts,
    }
}

fn query(upstream: Option<&str>, ahead: usize, behind: usize) -> GitQueryData {
    GitQueryData {
        total: 3,
        entries: vec![commit("h1", 300), commit("h2", 200), commit("h3", 100)],
        upstream: upstream.map(|u| u.to_string()),
        ahead_all: (0..ahead).map(|i| commit(&format!("a{i}"), 50 + i as i64)).collect(),
        behind_all: (0..behind).map(|i| commit(&format!("b{i}"), 40 + i as i64)).collect(),
    }
}

#[test]
fn no_upstream_short_circuits_ahead_behind() {
    let resp = reconcile_log("m1", Ok(query(None, 2, 2)), 10).expect("query succeeded");
    assert!(resp.upstream.is_none());
    assert_eq!(resp.ahead, 0);
    assert_eq!(resp.behind, 0);
    assert!(resp.ahead_entries.is_empty());
    assert!(resp.behind_entries.is_empty());
    assert_eq!(resp.total, 3);
    assert_eq!(resp.entries.len(), 3);
    assert_eq!(resp.entries[0].sha, "h1");
}

#[test]
fn counts_match_lists_when_under_cap() {
    let resp = reconcile_log("m1", Ok(query(Some("origin/main"), 2, 3)), 10).expect("ok");
    assert_eq!(resp.upstream.as_deref(), Some("origin/main"));
    assert_eq!(resp.ahead, 2);
    assert_eq!(resp.behind, 3);
    assert_eq!(resp.ahead_entries.len(), 2);
    assert_eq!(resp.behind_entries.len(), 3);
}

#[test]
fn caps_bound_lists_but_counts_stay_true() {
    let resp = reconcile_log("m1", Ok(query(Some("origin/main"), 12, 1)), 10).expect("ok");
    assert_eq!(resp.ahead, 12);
    assert_eq!(resp.ahead_entries.len(), 10);
    assert_eq!(resp.ahead_entries[0].sha, "a0");
    assert_eq!(resp.behind, 1);
    assert_eq!(resp.behind_entries.len(), 1);
}

#[test]
fn failed_git_query_fails_whole_response() {
    let r = reconcile_log("m1", Err("corrupt repo".to_string()), 10);
    match r {
        Err(CoreError::GitQueryFailed { workspace_id, cause }) => {
            assert_eq!(workspace_id, "m1");
            assert_eq!(cause, "corrupt repo");
        }
        other => panic!("expected GitQueryFailed, got {other:?}"),
    }
}

#[test]
fn branches_order_most_recent_first_with_stable_ties() {
    let branches = vec![
        BranchInfo { name: "old".to_string(), last_commit: 10 },
        BranchInfo { name: "tie-a".to_string(), last_commit: 50 },
        BranchInfo { name: "new".to_string(), last_commit: 90 },
        BranchInfo { name: "tie-b".to_string(), last_commit: 50 },
    ];
    let names: Vec<String> = order_branches(branches).into_iter().map(|b| b.name).collect();
    assert_eq!(names, vec!["new", "tie-a", "tie-b", "old"]);
}

#[test]
fn diff_line_counts_ignore_headers() {
    let lines: Vec<String> = vec![
        "--- a/file.rs".to_string(),
        "+++ b/file.rs".to_string(),
        "@@ -1,3 +1,4 @@".to_string(),
        " context".to_string(),
        "+added one".to_string(),
        "+added two".to_string(),
        "-removed".to_string(),
        "".to_string(),
    ];
    let (added, deleted) = count_diff_lines(&lines);
    assert_eq!(added, 2);
    assert_eq!(deleted, 1);
}

#[test]
fn binary_files_report_zero_counts() {
    let changes = vec![
        RawFileChange {
            path: "img.png".to_string(),
            status: "added".to_string(),
            binary: true,
            diff_lines: vec!["+garbage".to_string()],
        },
        RawFileChange {
            path: "src.rs".to_string(),
            status: "modified".to_string(),
            binary: false,
            diff_lines: vec!["+one".to_string(), "-two".to_string(), " ctx".to_string()],
        },
    ];
    let summary = summarize_changes(&changes);
    assert_eq!(summary.len(), 2);
    assert_eq!(summary[0].additions, 0);
    assert_eq!(summary[0].deletions, 0);
    assert_eq!(summary[0].status, "added");
    assert_eq!(summary[1].additions, 1);
    assert_eq!(summary[1].deletions, 1);
    assert_eq!(summary[1].path, "src.rs");
}

#[test]
fn diff_is_materialized_only_for_the_requested_path() {
    let changes = vec![RawFileChange {
        path: "a.rs".to_string(),
        status: "modified".to_string(),
        binary: false,
        diff_lines: vec!["+x".to_string(), "-y".to_string()],
    }];
    let d = diff_for_path(&changes, "a.rs").expect("path is changed");
    assert_eq!(d.path, "a.rs");
    assert_eq!(d.diff, "+x\n-y");
    assert!(diff_for_path(&changes, "b.rs").is_none());
}

#[test]
fn issue_total_may_exceed_page_length() {
    let issues: Vec<GitHubIssue> = (0..10)
        .map(|n| GitHubIssue {
            number: n,
            title: format!("issue {n}"),
            url: format!("https://example.test/{n}"),
            updated_at: "2024-01-01".to_string(),
        })
        .collect();
    let resp = make_issues_response(50, issues);
    assert_eq!(resp.total, 50);
    assert_eq!(resp.issues.len(), 10);
}

#[test]
fn issue_record_requires_its_fields() {
    let full = obj(vec![
        ("number", JsonValue::Int(7)),
        ("title", JsonValue::Str("t".to_string())),
        ("url", JsonValue::Str("u".to_string())),
        ("updatedAt", JsonValue::Str("now".to_string())),
    ]);
    let issue = github_issue_from_json(&full).expect("full issue reads");
    assert_eq!(issue.number, 7);
    let negative = obj(vec![
        ("number", JsonValue::Int(-1)),
        ("title", JsonValue::Str("t".to_string())),
        ("url", JsonValue::Str("u".to_string())),
        ("updatedAt", JsonValue::Str("now".to_string())),
    ]);
    assert!(github_issue_from_json(&negative).is_none());
}

#[test]
fn missing_author_is_not_an_error() {
    let pr = obj(vec![
        ("number", JsonValue::Int(12)),
        ("title", JsonValue::Str("t".to_string())),
        ("url", JsonValue::Str("u".to_string())),
        ("updatedAt", JsonValue::Str("now".to_string())),
        ("headRefName", JsonValue::Str("feat".to_string())),
        ("baseRefName", JsonValue::Str("main".to_string())),
        ("isDraft", JsonValue::Bool(false)),
    ]);
    let parsed = github_pull_request_from_json(&pr).expect("pr reads");
    assert!(parsed.author.is_none());
    assert_eq!(parsed.head_ref_name, "feat");
    let with_author = obj(vec![
        ("number", JsonValue::Int(12)),
        ("title", JsonValue::Str("t".to_string())),
        ("url", JsonValue::Str("u".to_string())),
        ("updatedAt", JsonValue::Str("now".to_string())),
        ("headRefName", JsonValue::Str("feat".to_string())),
        ("baseRefName", JsonValue::Str("main".to_string())),
        ("isDraft", JsonValue::Bool(true)),
        ("author", obj(vec![("login", JsonValue::Str("ada".to_string()))])),
    ]);
    let parsed = github_pull_request_from_json(&with_author).expect("pr reads");
    assert_eq!(parsed.author.map(|a| a.login), Some("ada".to_string()));
    assert!(parsed.is_draft);
}

#[test]
fn pull_request_page_total_is_carried_as_given() {
    let resp = make_pull_requests_response(9, vec![]);
    assert_eq!(resp.total, 9);
    assert!(resp.pull_requests.is_empty());
}

#[test]
fn pull_request_diff_reads_its_fields() {
    let d = pull_request_diff_from_json(&obj(vec![
        ("path", JsonValue::Str("a.rs".to_string())),
        ("status", JsonValue::Str("modified".to_string())),
        ("diff", JsonValue::Str("+x".to_string())),
    ]))
    .expect("diff reads");
    assert_eq!(d.path, "a.rs");
    assert_eq!(d.status, "modified");
    assert_eq!(d.diff, "+x");
}

#[test]
fn sync_issues_parses_page_and_skips_malformed_records() {
    let page = obj(vec![
        ("total", JsonValue::Int(50)),
        (
            "issues",
            JsonValue::Arr(vec![
                obj(vec![
                    ("number", JsonValue::Int(1)),
                    ("title", JsonValue::Str("first".to_string())),
                    ("url", JsonValue::Str("u1".to_string())),
                    ("updatedAt", JsonValue::Str("now".to_string())),
                ]),
                obj(vec![("title", JsonValue::Str("no number".to_string()))]),
            ]),
        ),
    ]);
    let resp = sync_issues(Ok(page)).expect("transport delivered");
    assert_eq!(resp.total, 50);
    assert_eq!(resp.issues.len(), 1);
    assert_eq!(resp.issues[0].title, "first");
}

#[test]
fn sync_pull_requests_parses_page() {
    let page = obj(vec![
        ("total", JsonValue::Int(3)),
        (
            "pullRequests",
            JsonValue::Arr(vec![obj(vec![
                ("number", JsonValue::Int(12)),
                ("title", JsonValue::Str("t".to_string())),
                ("url", JsonValue::Str("u".to_string())),
                ("updatedAt", JsonValue::Str("now".to_string())),
                ("headRefName", JsonValue::Str("feat".to_string())),
                ("baseRefName", JsonValue::Str("main".to_string())),
                ("isDraft", JsonValue::Bool(false)),
            ])]),
        ),
    ]);
    let resp = sync_pull_requests(Ok(page)).expect("transport delivered");
    assert_eq!(resp.total, 3);
    assert_eq!(resp.pull_requests.len(), 1);
    assert_eq!(resp.pull_requests[0].number, 12);
    assert!(resp.pull_requests[0].author.is_none());
}

#[test]
fn transport_failure_propagates_verbatim() {
    let r = sync_issues(Err(TransportFault { cause: "timeout".to_string(), retryable: true }));
    match r {
        Err(CoreError::TransportFailed { cause, retryable }) => {
            assert_eq!(cause, "timeout");
            assert!(retryable);
        }
        other => panic!("expected TransportFailed, got {other:?}"),
    }
}
