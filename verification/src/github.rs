//! The GitHub sync adapter: normalizes remote issue and pull-request
//! payloads into stable response shapes. `total` is the server-reported
//! count and may exceed the returned page's length; a missing author is a
//! documented default, never an error; transport failures propagate verbatim.

use vstd::prelude::*;
use crate::json::{JsonValue, jfield, obj_get};
use crate::types::{
    CoreError, GitHubIssue, GitHubIssuesResponse, GitHubPullRequest, GitHubPullRequestAuthor,
    GitHubPullRequestDiff, GitHubPullRequestsResponse,
};

verus! {

/// A non-negative number field read as `u64`.
pub open spec fn u64_field(f: Option<JsonValue>, r: u64) -> bool {
    f matches Some(JsonValue::Int(n)) && n >= 0 && r == n as u64
}

/// An issue record carries its required fields.
pub open spec fn issue_shape_ok(v: JsonValue) -> bool {
    &&& jfield(v, "number"@) matches Some(JsonValue::Int(n)) && n >= 0
    &&& jfield(v, "title"@) matches Some(JsonValue::Str(_))
    &&& jfield(v, "url"@) matches Some(JsonValue::Str(_))
    &&& jfield(v, "updatedAt"@) matches Some(JsonValue::Str(_))
}

/// `r` is exactly the issue the record `v` describes.
pub open spec fn issue_matches(v: JsonValue, r: GitHubIssue) -> bool {
    &&& u64_field(jfield(v, "number"@), r.number)
    &&& jfield(v, "title"@) matches Some(JsonValue::Str(s)) && r.title@ == s@
    &&& jfield(v, "url"@) matches Some(JsonValue::Str(s)) && r.url@ == s@
    &&& jfield(v, "updatedAt"@) matches Some(JsonValue::Str(s)) && r.updated_at@ == s@
}

/// Reads one issue record; `None` when a required field is missing.
pub fn github_issue_from_json(v: &JsonValue) -> (r: Option<GitHubIssue>)
    ensures
        match r {
            Some(i) => issue_shape_ok(*v) && issue_matches(*v, i),
            None => !issue_shape_ok(*v),
        },
{
    let number: u64 = match obj_get(v, "number") {
        Some(JsonValue::Int(n)) => {
            if *n >= 0 {
                *n as u64
            } else {
                return None;
            }
        },
        _ => {
            return None;
        },
    };
    let title = match obj_get(v, "title") {
        Some(JsonValue::Str(s)) => s.clone(),
        _ => {
            return None;
        },
    };
    let url = match obj_get(v, "url") {
        Some(JsonValue::Str(s)) => s.clone(),
        _ => {
            return None;
        },
    };
    let updated_at = match obj_get(v, "updatedAt") {
        Some(JsonValue::Str(s)) => s.clone(),
        _ => {
            return None;
        },
    };
    Some(GitHubIssue { number, title, url, updated_at })
}

/// `r` is the issue list read from `s` in order, malformed records skipped.
pub open spec fn issues_list_matches(s: Seq<JsonValue>, r: Seq<GitHubIssue>) -> bool
    decreases s.len(),
{
    if s.len() == 0 {
        r.len() == 0
    } else if issue_shape_ok(s.last()) {
        &&& r.len() > 0
        &&& issue_matches(s.last(), r.last())
        &&& issues_list_matches(s.drop_last(), r.drop_last())
    } else {
        issues_list_matches(s.drop_last(), r)
    }
}

/// Reads an issue page's records.
pub fn issues_from_json(items: &Vec<JsonValue>) -> (r: Vec<GitHubIssue>)
    ensures
        issues_list_matches(items@, r@),
{
    let n = items.len();
    let mut out: Vec<GitHubIssue> = Vec::new();
    let mut i: usize = 0;
    while i < n
        invariant
            i <= n,
            n == items@.len(),
            issues_list_matches(items@.take(i as int), out@),
        decreases n - i,
    {
        proof {
            assert(items@.take(i as int + 1).drop_last() =~= items@.take(i as int));
            assert(items@.take(i as int + 1).last() == items@[i as int]);
        }
        match github_issue_from_json(&items[i]) {
            Some(issue) => {
                proof {
                    assert(out@.push(issue).drop_last() =~= out@);
                }
                out.push(issue);
            },
            None => {},
        }
        i = i + 1;
    }
    proof {
        assert(items@.take(n as int) =~= items@);
    }
    out
}

/// Builds an issue page response. `total` is the server-reported result
/// count: it is carried as given and deliberately unrelated to
/// `issues.len()`, since a page may hold fewer records than the server has.
pub fn make_issues_response(total: usize, issues: Vec<GitHubIssue>) -> (r: GitHubIssuesResponse)
    ensures
        r.total == total,
        r.issues == issues,
{
    GitHubIssuesResponse { total, issues }
}

/// The author a pull-request record describes: a present author object with
/// a string login, or the documented `None` default for anything else
/// (deleted or anonymized accounts omit the field).
pub open spec fn author_field_matches(f: Option<JsonValue>, r: Option<GitHubPullRequestAuthor>) -> bool {
    match f {
        Some(av) => match jfield(av, "login"@) {
            Some(JsonValue::Str(l)) => r matches Some(a) && a.login@ == l@,
            _ => r is None,
        },
        None => r is None,
    }
}

/// A pull-request record carries its required fields.
pub open spec fn pr_shape_ok(v: JsonValue) -> bool {
    &&& jfield(v, "number"@) matches Some(JsonValue::Int(n)) && n >= 0
    &&& jfield(v, "title"@) matches Some(JsonValue::Str(_))
    &&& jfield(v, "url"@) matches Some(JsonValue::Str(_))
    &&& jfield(v, "updatedAt"@) matches Some(JsonValue::Str(_))
    &&& jfield(v, "headRefName"@) matches Some(JsonValue::Str(_))
    &&& jfield(v, "baseRefName"@) matches Some(JsonValue::Str(_))
    &&& jfield(v, "isDraft"@) matches Some(JsonValue::Bool(_))
}

/// `r` is exactly the pull request the record `v` describes.
pub open spec fn pr_matches(v: JsonValue, r: GitHubPullRequest) -> bool {
    &&& u64_field(jfield(v, "number"@), r.number)
    &&& jfield(v, "title"@) matches Some(JsonValue::Str(s)) && r.title@ == s@
    &&& jfield(v, "url"@) matches Some(JsonValue::Str(s)) && r.url@ == s@
    &&& jfield(v, "updatedAt"@) matches Some(JsonValue::Str(s)) && r.updated_at@ == s@
    &&& jfield(v, "headRefName"@) matches Some(JsonValue::Str(s)) && r.head_ref_name@ == s@
    &&& jfield(v, "baseRefName"@) matches Some(JsonValue::Str(s)) && r.base_ref_name@ == s@
    &&& jfield(v, "isDraft"@) matches Some(JsonValue::Bool(b)) && r.is_draft == b
    &&& author_field_matches(jfield(v, "author"@), r.author)
}

/// Reads one pull-request record; `None` when a required field is missing.
/// A missing author is not an error.
pub fn github_pull_request_from_json(v: &JsonValue) -> (r: Option<GitHubPullRequest>)
    ensures
        match r {
            Some(p) => pr_shape_ok(*v) && pr_matches(*v, p),
            None => !pr_shape_ok(*v),
        },
{
    let number: u64 = match obj_get(v, "number") {
        Some(JsonValue::Int(n)) => {
            if *n >= 0 {
                *n as u64
            } else {
                return None;
            }
        },
        _ => {
            return None;
        },
    };
    let title = match obj_get(v, "title") {
        Some(JsonValue::Str(s)) => s.clone(),
        _ => {
            return None;
        },
    };
    let url = match obj_get(v, "url") {
        Some(JsonValue::Str(s)) => s.clone(),
        _ => {
            return None;
        },
    };
    let updated_at = match obj_get(v, "updatedAt") {
        Some(JsonValue::Str(s)) => s.clone(),
        _ => {
            return None;
        },
    };
    let head_ref_name = match obj_get(v, "headRefName") {
        Some(JsonValue::Str(s)) => s.clone(),
        _ => {
            return None;
        },
    };
    let base_ref_name = match obj_get(v, "baseRefName") {
        Some(JsonValue::Str(s)) => s.clone(),
        _ => {
            return None;
        },
    };
    let is_draft = match obj_get(v, "isDraft") {
        Some(JsonValue::Bool(b)) => *b,
        _ => {
            return None;
        },
    };
    let author = match obj_get(v, "author") {
        Some(av) => match obj_get(av, "login") {
            Some(JsonValue::Str(l)) => Some(GitHubPullRequestAuthor { login: l.clone() }),
            _ => None,
        },
        None => None,
    };
    Some(GitHubPullRequest {
        number,
        title,
        url,
        updated_at,
        head_ref_name,
        base_ref_name,
        is_draft,
        author,
    })
}

/// Builds a pull-request page response; `total` is carried as given.
pub fn make_pull_requests_response(total: usize, pull_requests: Vec<GitHubPullRequest>) -> (r:
    GitHubPullRequestsResponse)
    ensures
        r.total == total,
        r.pull_requests == pull_requests,
{
    GitHubPullRequestsResponse { total, pull_requests }
}

/// Reads the on-demand per-path diff of one pull request.
pub fn pull_request_diff_from_json(v: &JsonValue) -> (r: Option<GitHubPullRequestDiff>)
    ensures
        match r {
            Some(d) => {
                &&& jfield(*v, "path"@) matches Some(JsonValue::Str(s)) && d.path@ == s@
                &&& jfield(*v, "status"@) matches Some(JsonValue::Str(s)) && d.status@ == s@
                &&& jfield(*v, "diff"@) matches Some(JsonValue::Str(s)) && d.diff@ == s@
            },
            None => !(jfield(*v, "path"@) matches Some(JsonValue::Str(_)) && jfield(*v, "status"@)
                matches Some(JsonValue::Str(_)) && jfield(*v, "diff"@) matches Some(
                JsonValue::Str(_),
            )),
        },
{
    let path = match obj_get(v, "path") {
        Some(JsonValue::Str(s)) => s.clone(),
        _ => {
            return None;
        },
    };
    let status = match obj_get(v, "status") {
        Some(JsonValue::Str(s)) => s.clone(),
        _ => {
            return None;
        },
    };
    let diff = match obj_get(v, "diff") {
        Some(JsonValue::Str(s)) => s.clone(),
        _ => {
            return None;
        },
    };
    Some(GitHubPullRequestDiff { path, status, diff })
}

/// `r` is the pull-request list read from `s` in order, malformed records
/// skipped.
pub open spec fn prs_list_matches(s: Seq<JsonValue>, r: Seq<GitHubPullRequest>) -> bool
    decreases s.len(),
{
    if s.len() == 0 {
        r.len() == 0
    } else if pr_shape_ok(s.last()) {
        &&& r.len() > 0
        &&& pr_matches(s.last(), r.last())
        &&& prs_list_matches(s.drop_last(), r.drop_last())
    } else {
        prs_list_matches(s.drop_last(), r)
    }
}

/// Reads a pull-request page's records.
pub fn pull_requests_from_json(items: &Vec<JsonValue>) -> (r: Vec<GitHubPullRequest>)
    ensures
        prs_list_matches(items@, r@),
{
    let n = items.len();
    let mut out: Vec<GitHubPullRequest> = Vec::new();
    let mut i: usize = 0;
    while i < n
        invariant
            i <= n,
            n == items@.len(),
            prs_list_matches(items@.take(i as int), out@),
        decreases n - i,
    {
        proof {
            assert(items@.take(i as int + 1).drop_last() =~= items@.take(i as int));
            assert(items@.take(i as int + 1).last() == items@[i as int]);
        }
        match github_pull_request_from_json(&items[i]) {
            Some(pr) => {
                proof {
                    assert(out@.push(pr).drop_last() =~= out@);
                }
                out.push(pr);
            },
            None => {},
        }
        i = i + 1;
    }
    proof {
        assert(items@.take(n as int) =~= items@);
    }
    out
}

/// A transport failure, with its cause and whether it is retryable.
pub struct TransportFault {
    pub cause: String,
    pub retryable: bool,
}

/// Normalizes an issue page fetched by the transport collaborator. A
/// transport failure propagates verbatim as `TransportFailed`; it never
/// corrupts previously loaded state, since no partial response is built.
pub fn sync_issues(raw: Result<JsonValue, TransportFault>) -> (r: Result<
    GitHubIssuesResponse,
    CoreError,
>)
    ensures
        r is Ok <==> raw is Ok,
        match r {
            Ok(resp) => {
                &&& raw matches Ok(v)
                &&& match jfield(v, "total"@) {
                    Some(JsonValue::Int(n)) => if 0 <= n && n <= usize::MAX {
                        resp.total == n as usize
                    } else {
                        resp.total == 0
                    },
                    _ => resp.total == 0,
                }
                &&& raw matches Ok(v) && match jfield(v, "issues"@) {
                    Some(JsonValue::Arr(a)) => issues_list_matches(a@, resp.issues@),
                    _ => resp.issues@.len() == 0,
                }
            },
            Err(e) => {
                &&& raw matches Err(f)
                &&& e matches CoreError::TransportFailed { cause, retryable } && cause@ == f.cause@
                    && retryable == f.retryable
            },
        },
{
    match raw {
        Err(f) => Err(CoreError::TransportFailed { cause: f.cause, retryable: f.retryable }),
        Ok(v) => {
            let total = total_from_json(&v);
            let issues = match obj_get(&v, "issues") {
                Some(JsonValue::Arr(items)) => issues_from_json(items),
                _ => Vec::new(),
            };
            Ok(make_issues_response(total, issues))
        },
    }
}

/// Reads the server-reported total of a page; absent or out of range is
/// zero.
fn total_from_json(v: &JsonValue) -> (r: usize)
    ensures
        match jfield(*v, "total"@) {
            Some(JsonValue::Int(n)) => if 0 <= n && n <= usize::MAX {
                r == n as usize
            } else {
                r == 0
            },
            _ => r == 0,
        },
{
    match obj_get(v, "total") {
        Some(JsonValue::Int(n)) => {
            if 0 <= *n && (*n as u64) <= (usize::MAX as u64) {
                *n as usize
            } else {
                0
            }
        },
        _ => 0,
    }
}

/// Normalizes a pull-request page fetched by the transport collaborator,
/// under the same rules as `sync_issues`.
pub fn sync_pull_requests(raw: Result<JsonValue, TransportFault>) -> (r: Result<
    GitHubPullRequestsResponse,
    CoreError,
>)
    ensures
        r is Ok <==> raw is Ok,
        match r {
            Ok(resp) => {
                &&& raw matches Ok(v)
                &&& match jfield(v, "total"@) {
                    Some(JsonValue::Int(n)) => if 0 <= n && n <= usize::MAX {
                        resp.total == n as usize
                    } else {
                        resp.total == 0
                    },
                    _ => resp.total == 0,
                }
                &&& raw matches Ok(v) && match jfield(v, "pullRequests"@) {
                    Some(JsonValue::Arr(a)) => prs_list_matches(a@, resp.pull_requests@),
                    _ => resp.pull_requests@.len() == 0,
                }
            },
            Err(e) => {
                &&& raw matches Err(f)
                &&& e matches CoreError::TransportFailed { cause, retryable } && cause@ == f.cause@
                    && retryable == f.retryable
            },
        },
{
    match raw {
        Err(f) => Err(CoreError::TransportFailed { cause: f.cause, retryable: f.retryable }),
        Ok(v) => {
            let total = total_from_json(&v);
            let pull_requests = match obj_get(&v, "pullRequests") {
                Some(JsonValue::Arr(items)) => pull_requests_from_json(items),
                _ => Vec::new(),
            };
            Ok(make_pull_requests_response(total, pull_requests))
        },
    }
}

} // verus!
