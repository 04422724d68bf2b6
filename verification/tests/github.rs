use linear_board::board::records::{CheckStatus, MergeStatus};
use linear_board::github::checks::{rollup_check_status, GhCheckElement};
use linear_board::github::cli::{GhCli, GhCliError, GhRun};
use linear_board::github::created::parse_pr_create_text;
use linear_board::github::types::{
    CreatePrRequest, GhCommentResponse, GhMergeCommit, GhPrResponse, GhRepoOwner,
    GhRepoViewResponse, GhReviewCommentResponse, GhUserLogin, GitHubRepoInfo,
};
use linear_board::time::Timestamp;

fn at(secs: i64) -> Timestamp {
    Timestamp { secs, nanos: 0 }
}

fn text_of(v: &serde_json::Value, key: &str) -> Option<String> {
    v.get(key).and_then(serde_json::Value::as_str).map(str::to_string)
}

fn parse_rollup(json: &str) -> Vec<GhCheckElement> {
    let value: serde_json::Value =
        serde_json::from_str(json).expect("rollup fixture should deserialize");
    value
        .as_array()
        .unwrap()
        .iter()
        .map(|el| match el.get("__typename").and_then(serde_json::Value::as_str) {
            Some("CheckRun") => GhCheckElement::CheckRun {
                status: text_of(el, "status"),
                conclusion: text_of(el, "conclusion"),
            },
            Some("StatusContext") => GhCheckElement::StatusContext {
                state: text_of(el, "state"),
            },
            _ => GhCheckElement::Unknown,
        })
        .collect()
}

#[test]
fn empty_rollup_is_no_checks() {
    assert_eq!(rollup_check_status(&[]), CheckStatus::NoChecks);
}

#[test]
fn status_context_states_classify() {
    assert_eq!(
        rollup_check_status(&parse_rollup(
            r#"[{"__typename":"StatusContext","context":"CodeRabbit","state":"SUCCESS"}]"#
        )),
        CheckStatus::Passing
    );
    assert_eq!(
        rollup_check_status(&parse_rollup(
            r#"[{"__typename":"StatusContext","context":"ci","state":"PENDING"}]"#
        )),
        CheckStatus::Pending
    );
    assert_eq!(
        rollup_check_status(&parse_rollup(
            r#"[{"__typename":"StatusContext","context":"ci","state":"FAILURE"}]"#
        )),
        CheckStatus::Failing
    );
    assert_eq!(
        rollup_check_status(&parse_rollup(
            r#"[{"__typename":"StatusContext","context":"ci","state":"ERROR"}]"#
        )),
        CheckStatus::Failing
    );
}

#[test]
fn check_run_status_and_conclusion_classify() {
    assert_eq!(
        rollup_check_status(&parse_rollup(
            r#"[{"__typename":"CheckRun","name":"build","status":"IN_PROGRESS","conclusion":null}]"#
        )),
        CheckStatus::Pending
    );
    assert_eq!(
        rollup_check_status(&parse_rollup(
            r#"[{"__typename":"CheckRun","name":"build","status":"QUEUED","conclusion":null}]"#
        )),
        CheckStatus::Pending
    );
    assert_eq!(
        rollup_check_status(&parse_rollup(
            r#"[{"__typename":"CheckRun","name":"build","status":"COMPLETED","conclusion":"SUCCESS"}]"#
        )),
        CheckStatus::Passing
    );
    assert_eq!(
        rollup_check_status(&parse_rollup(
            r#"[{"__typename":"CheckRun","name":"build","status":"COMPLETED","conclusion":"FAILURE"}]"#
        )),
        CheckStatus::Failing
    );
    assert_eq!(
        rollup_check_status(&parse_rollup(
            r#"[{"__typename":"CheckRun","name":"build","status":"COMPLETED","conclusion":null}]"#
        )),
        CheckStatus::Pending
    );
}

#[test]
fn non_success_conclusions_are_failing() {
    for c in [
        "TIMED_OUT",
        "CANCELLED",
        "ACTION_REQUIRED",
        "STARTUP_FAILURE",
        "STALE",
    ] {
        let json = format!(
            r#"[{{"__typename":"CheckRun","name":"x","status":"COMPLETED","conclusion":"{c}"}}]"#
        );
        assert_eq!(
            rollup_check_status(&parse_rollup(&json)),
            CheckStatus::Failing,
            "conclusion {c} should be failing"
        );
    }
}

#[test]
fn only_skipped_or_neutral_is_no_checks() {
    assert_eq!(
        rollup_check_status(&parse_rollup(
            r#"[{"__typename":"CheckRun","name":"x","status":"COMPLETED","conclusion":"SKIPPED"},
                {"__typename":"CheckRun","name":"y","status":"COMPLETED","conclusion":"NEUTRAL"}]"#
        )),
        CheckStatus::NoChecks
    );
}

#[test]
fn failing_dominates_pending_and_passing() {
    assert_eq!(
        rollup_check_status(&parse_rollup(
            r#"[{"__typename":"CheckRun","name":"a","status":"COMPLETED","conclusion":"SUCCESS"},
                {"__typename":"CheckRun","name":"b","status":"IN_PROGRESS","conclusion":null},
                {"__typename":"CheckRun","name":"c","status":"COMPLETED","conclusion":"FAILURE"}]"#
        )),
        CheckStatus::Failing
    );
}

#[test]
fn pending_dominates_passing() {
    assert_eq!(
        rollup_check_status(&parse_rollup(
            r#"[{"__typename":"StatusContext","context":"a","state":"SUCCESS"},
                {"__typename":"CheckRun","name":"b","status":"IN_PROGRESS","conclusion":null}]"#
        )),
        CheckStatus::Pending
    );
}

#[test]
fn skipped_alongside_success_is_passing() {
    assert_eq!(
        rollup_check_status(&parse_rollup(
            r#"[{"__typename":"CheckRun","name":"a","status":"COMPLETED","conclusion":"SKIPPED"},
                {"__typename":"CheckRun","name":"b","status":"COMPLETED","conclusion":"SUCCESS"}]"#
        )),
        CheckStatus::Passing
    );
}

#[test]
fn unknown_typename_is_neutral_never_pass_or_fail() {
    assert_eq!(
        rollup_check_status(&parse_rollup(
            r#"[{"__typename":"MergeQueueEntry","state":"QUEUED"}]"#
        )),
        CheckStatus::NoChecks
    );
    assert_eq!(
        rollup_check_status(&parse_rollup(
            r#"[{"__typename":"MergeQueueEntry","state":"QUEUED"},
                {"__typename":"StatusContext","context":"ci","state":"FAILURE"}]"#
        )),
        CheckStatus::Failing
    );
}

#[test]
fn states_are_compared_whatever_the_case() {
    assert_eq!(
        rollup_check_status(&[GhCheckElement::CheckRun {
            status: Some("completed".to_string()),
            conclusion: Some("success".to_string()),
        }]),
        CheckStatus::Passing
    );
    assert_eq!(
        rollup_check_status(&[GhCheckElement::StatusContext {
            state: Some("expected".to_string()),
        }]),
        CheckStatus::Pending
    );
    assert_eq!(
        rollup_check_status(&[GhCheckElement::StatusContext { state: None }]),
        CheckStatus::NoChecks
    );
}

// --- running the tool -------------------------------------------------------

fn exited(success: bool, code: Option<i32>, stdout: &[u8], stderr: &[u8]) -> GhRun {
    GhRun::Exited {
        success,
        code,
        stdout: stdout.to_vec(),
        stderr: stderr.to_vec(),
    }
}

#[test]
fn runs_are_judged_by_exit_and_complaint() {
    let gh = GhCli::new();
    assert_eq!(gh.run(GhRun::NotFound), Err(GhCliError::NotAvailable));
    assert_eq!(
        gh.run(GhRun::NotStarted("no permission".to_string())),
        Err(GhCliError::CommandFailed("no permission".to_string()))
    );
    assert_eq!(
        gh.run(exited(true, Some(0), b"out \xff\n", b"ignored")),
        Ok("out \u{fffd}\n".to_string())
    );
    assert_eq!(
        gh.run(exited(false, Some(4), b"", b"  whatever \n")),
        Err(GhCliError::AuthFailed("whatever".to_string()))
    );
    for complaint in [
        "HTTP 401: Bad credentials",
        "Authentication failed for x",
        "you must authenticate",
        "Unauthorized",
        "run gh auth login",
    ] {
        assert_eq!(
            gh.run(exited(false, Some(1), b"", complaint.as_bytes())),
            Err(GhCliError::AuthFailed(complaint.to_string()))
        );
    }
    assert_eq!(
        gh.run(exited(false, None, b"", b"no such repo\n")),
        Err(GhCliError::CommandFailed("no such repo".to_string()))
    );
}

#[test]
fn errors_are_put_into_words() {
    assert_eq!(
        GhCliError::NotAvailable.to_string(),
        "GitHub CLI (`gh`) executable not found or not runnable"
    );
    assert_eq!(
        GhCliError::CommandFailed("x".to_string()).to_string(),
        "GitHub CLI command failed: x"
    );
    assert_eq!(
        GhCliError::AuthFailed("x".to_string()).to_string(),
        "GitHub CLI authentication failed: x"
    );
    assert_eq!(
        GhCliError::UnexpectedOutput("x".to_string()).to_string(),
        "GitHub CLI returned unexpected output: x"
    );
}

fn repo(host: Option<&str>) -> GitHubRepoInfo {
    GitHubRepoInfo {
        owner: "o".to_string(),
        repo_name: "r".to_string(),
        hostname: host.map(str::to_string),
    }
}

#[test]
fn repositories_are_named_with_their_host() {
    assert_eq!(repo(None).repo_spec(), "o/r");
    assert_eq!(repo(Some("ghe.example")).repo_spec(), "ghe.example/o/r");
    assert_eq!(repo(Some("ghe.example")).clone(), repo(Some("ghe.example")));
    assert_eq!(GhCli::default(), GhCli::new().clone());
}

#[test]
fn repo_info_takes_the_host_from_the_url() {
    let gh = GhCli::new();
    let resp = |url: &str| GhRepoViewResponse {
        owner: GhRepoOwner { login: "o".to_string() },
        name: "r".to_string(),
        url: url.to_string(),
    };
    let command = gh.repo_info_command("git@x:o/r", "/tmp/r");
    assert_eq!(command.args, vec!["repo", "view", "git@x:o/r", "--json", "owner,name,url"]);
    assert_eq!(command.dir.as_deref(), Some("/tmp/r"));
    let got = gh
        .get_repo_info(Ok("raw".to_string()), Ok(resp("https://GitHub.com:443/o/r")))
        .unwrap();
    assert_eq!(got, repo(Some("github.com")));
    let got = gh.get_repo_info(Ok("raw".to_string()), Ok(resp("not a url"))).unwrap();
    assert_eq!(got, repo(None));
    assert_eq!(
        gh.get_repo_info(Ok("raw".to_string()), Err("bad".to_string())),
        Err(GhCliError::UnexpectedOutput(
            "Failed to parse gh repo view response: bad".to_string()
        ))
    );
    assert_eq!(
        gh.get_repo_info(Err(GhCliError::NotAvailable), Ok(resp("x"))),
        Err(GhCliError::NotAvailable)
    );
}

// --- creating pull requests -------------------------------------------------

fn create_request() -> CreatePrRequest {
    CreatePrRequest {
        title: "T".to_string(),
        body: Some("B".to_string()),
        head_branch: "feat".to_string(),
        base_branch: "main".to_string(),
        draft: None,
    }
}

#[test]
fn create_command_names_everything() {
    let gh = GhCli::new();
    let mut req = create_request();
    let plain = vec![
        "pr", "create", "--repo", "o/r", "--head", "feat", "--base", "main", "--title", "T",
        "--body-file", "/tmp/b",
    ];
    let command = gh.create_pr_command(&req, &repo(None), "/tmp/b", "/repo");
    assert_eq!(command.args, plain);
    assert_eq!(command.dir.as_deref(), Some("/repo"));
    req.draft = Some(true);
    let command = gh.create_pr_command(&req, &repo(None), "/tmp/b", "/repo");
    assert_eq!(command.args.last().map(String::as_str), Some("--draft"));
    assert_eq!(command.args.len(), 13);
}

#[test]
fn created_pull_request_is_read_from_the_output() {
    let raw = "Creating pull request for feat into main in o/r\n\nhttps://github.com/o/r/pull/12\n";
    let d = parse_pr_create_text(raw, &create_request()).unwrap();
    assert_eq!(d.number, 12);
    assert_eq!(d.url, "https://github.com/o/r/pull/12");
    assert_eq!(d.status, MergeStatus::Open);
    assert_eq!((d.title.as_str(), d.base_branch.as_str(), d.head_branch.as_str()), ("T", "main", "feat"));
    assert_eq!((d.merged_at, d.check_status), (None, None));
    assert_eq!((d.merge_commit_sha, d.merge_state), (None, None));
}

#[test]
fn the_last_line_with_a_link_wins() {
    let raw = "see https://h/o/r/pull/1\r\nnow <https://h/o/r/pull/34>, and http://h/o/r/pull/5\r\ndone";
    let d = parse_pr_create_text(raw, &create_request()).unwrap();
    assert_eq!((d.url.as_str(), d.number), ("https://h/o/r/pull/34>", 34));
    let raw = "a https://h/o/r/pull/1\n b (x) <https://h/o/r/pull/34> http://h/o/r/pull/5 \n\nok\n";
    let d = parse_pr_create_text(raw, &create_request()).unwrap();
    assert_eq!((d.url.as_str(), d.number), ("https://h/o/r/pull/34", 34));
    let raw = "Done: https://h/o/r/pull/7;,.";
    let d = parse_pr_create_text(raw, &create_request()).unwrap();
    assert_eq!((d.url.as_str(), d.number), ("https://h/o/r/pull/7", 7));
    let raw = "https://h/o/r/pull/8?x";
    let d = parse_pr_create_text(raw, &create_request()).unwrap();
    assert_eq!((d.url.as_str(), d.number), ("https://h/o/r/pull/8?x", 8));
}

#[test]
fn output_without_a_pull_request_is_unexpected() {
    assert_eq!(
        parse_pr_create_text("nothing here", &create_request()).unwrap_err(),
        GhCliError::UnexpectedOutput(
            "gh pr create did not return a pull request URL; raw output: nothing here".to_string()
        )
    );
    assert_eq!(
        parse_pr_create_text("https://h/o/r/pull/abc", &create_request()).unwrap_err(),
        GhCliError::UnexpectedOutput(
            "Failed to parse PR number from URL 'https://h/o/r/pull/abc': cannot parse integer from empty string".to_string()
        )
    );
    let gh = GhCli::new();
    assert_eq!(
        gh.create_pr(Err(GhCliError::AuthFailed("x".to_string())), &create_request()),
        Err(GhCliError::AuthFailed("x".to_string()))
    );
}

// --- listing pull requests --------------------------------------------------

fn pr(number: i64, state: &str, updated_at: Option<i64>) -> GhPrResponse {
    GhPrResponse {
        number,
        url: format!("https://h/o/r/pull/{number}"),
        state: state.to_string(),
        merged_at: None,
        merge_commit: None,
        title: None,
        base_ref_name: None,
        head_ref_name: Some("feat".to_string()),
        updated_at: updated_at.map(at),
        status_check_rollup: vec![GhCheckElement::StatusContext {
            state: Some("SUCCESS".to_string()),
        }],
        merge_state_status: Some("CLEAN".to_string()),
    }
}

#[test]
fn pull_requests_show_checks_while_open() {
    let gh = GhCli::new();
    let show = |p: GhPrResponse| gh.view_pr(Ok(String::new()), Ok(p)).unwrap();
    let open = show(pr(1, "", None));
    assert_eq!(open.status, MergeStatus::Open);
    assert_eq!(open.check_status, Some(CheckStatus::Passing));
    assert_eq!((open.title.as_str(), open.head_branch.as_str()), ("", "feat"));
    assert_eq!(open.merge_state.as_deref(), Some("CLEAN"));
    let mut merged = pr(2, "merged", None);
    merged.merged_at = Some(at(5));
    merged.merge_commit = Some(GhMergeCommit { oid: Some("abc".to_string()) });
    let merged = show(merged);
    assert_eq!(merged.status, MergeStatus::Merged);
    assert_eq!(merged.check_status, None);
    assert_eq!(merged.merge_commit_sha.as_deref(), Some("abc"));
    assert_eq!(merged.merged_at, Some(at(5)));
    assert_eq!(show(pr(3, "CLOSED", None)).status, MergeStatus::Closed);
    assert_eq!(show(pr(4, "weird", None)).status, MergeStatus::Unknown);
    assert_eq!(
        gh.view_pr(Ok("RAW".to_string()), Err("e".to_string())),
        Err(GhCliError::UnexpectedOutput(
            "Failed to parse gh pr view response: e; raw: RAW".to_string()
        ))
    );
    let fields = "number,url,state,mergedAt,mergeCommit,title,baseRefName,headRefName,statusCheckRollup,mergeStateStatus";
    assert_eq!(gh.view_pr_command("U").args, vec!["pr", "view", "U", "--json", fields]);
}

#[test]
fn lists_are_newest_first_and_unknown_last() {
    let gh = GhCli::new();
    let open = vec![pr(1, "OPEN", Some(10)), pr(2, "OPEN", None), pr(3, "OPEN", Some(30))];
    let closed = vec![pr(4, "CLOSED", Some(20)), pr(5, "CLOSED", Some(30)), pr(6, "CLOSED", None)];
    let out = gh
        .list_prs(Ok(String::new()), Ok(String::new()), Ok(open), Ok(closed))
        .unwrap();
    let numbers: Vec<i64> = out.iter().map(|d| d.number).collect();
    assert_eq!(numbers, vec![3, 5, 4, 1, 2, 6]);
}

#[test]
fn lists_fail_with_the_first_error() {
    let gh = GhCli::new();
    let none = || Ok(Vec::new());
    let failed = || Err(GhCliError::NotAvailable);
    let auth = || Err(GhCliError::AuthFailed("a".to_string()));
    let raw = |s: &str| Ok(s.to_string());
    assert_eq!(gh.list_prs(failed(), auth(), none(), none()), Err(failed().unwrap_err()));
    assert_eq!(gh.list_prs(raw("x"), auth(), Err("p".to_string()), none()), Err(auth().unwrap_err()));
    assert_eq!(
        gh.list_prs(raw("O"), raw("C"), Err("p".to_string()), Err("q".to_string())),
        Err(GhCliError::UnexpectedOutput(
            "Failed to parse gh pr list (open) response: p; raw: O".to_string()
        ))
    );
    assert_eq!(
        gh.list_prs(raw("O"), raw("C"), none(), Err("q".to_string())),
        Err(GhCliError::UnexpectedOutput(
            "Failed to parse gh pr list (closed) response: q; raw: C".to_string()
        ))
    );
    assert_eq!(
        gh.list_prs_for_branch(raw("B"), Err("z".to_string())),
        Err(GhCliError::UnexpectedOutput(
            "Failed to parse gh pr list response: z; raw: B".to_string()
        ))
    );
    let listed = gh
        .list_prs_for_branch(raw(""), Ok(vec![pr(9, "OPEN", None), pr(8, "OPEN", Some(1))]))
        .unwrap();
    let numbers: Vec<i64> = listed.iter().map(|d| d.number).collect();
    assert_eq!(numbers, vec![9, 8]);
}

#[test]
fn list_commands_name_repository_and_state() {
    let gh = GhCli::new();
    let fields = "number,url,title,headRefName,baseRefName,state,mergedAt,mergeCommit,updatedAt,statusCheckRollup,mergeStateStatus";
    assert_eq!(
        gh.list_open_prs_command("o", "r").args,
        vec!["pr", "list", "--repo", "o/r", "--state", "open", "--json", fields]
    );
    assert_eq!(
        gh.list_closed_prs_command("o", "r").args,
        vec!["pr", "list", "--repo", "o/r", "--state", "closed", "--limit", "20", "--json", fields]
    );
    let branch = gh.list_prs_for_branch_command(&repo(Some("h")), "feat").args;
    assert_eq!(branch[..8], ["pr", "list", "--repo", "h/o/r", "--state", "all", "--head", "feat"]);
    assert_eq!(
        gh.pr_checkout_command("/p", "o", "r", 7).args,
        vec!["pr", "checkout", "7", "--repo", "o/r", "--force"]
    );
    assert_eq!(gh.pr_checkout(Ok(String::new())), Ok(()));
    assert_eq!(
        gh.pr_checkout(Err(GhCliError::NotAvailable)),
        Err(GhCliError::NotAvailable)
    );
}

// --- comments ---------------------------------------------------------------

#[test]
fn comments_fill_in_author_and_time() {
    let gh = GhCli::new();
    let comment = |author: Option<GhUserLogin>, t: Option<i64>| GhCommentResponse {
        id: "c".to_string(),
        author,
        author_association: "OWNER".to_string(),
        body: "b".to_string(),
        created_at: t.map(at),
        url: "u".to_string(),
    };
    let out = gh
        .get_pr_comments(
            Ok(String::new()),
            Ok(vec![
                comment(Some(GhUserLogin { login: Some("ann".to_string()) }), Some(3)),
                comment(Some(GhUserLogin { login: None }), None),
                comment(None, None),
            ]),
            at(99),
        )
        .unwrap();
    let shown: Vec<(&str, Timestamp)> =
        out.iter().map(|c| (c.author.login.as_str(), c.created_at)).collect();
    assert_eq!(shown, vec![("ann", at(3)), ("unknown", at(99)), ("unknown", at(99))]);
    assert_eq!(
        gh.get_pr_comments(Ok("R".to_string()), Err("e".to_string()), at(1)),
        Err(GhCliError::UnexpectedOutput(
            "Failed to parse gh pr view --json comments response: e; raw: R".to_string()
        ))
    );
    assert_eq!(
        gh.pr_comments_command(&repo(None), 5).args,
        vec!["pr", "view", "5", "--repo", "o/r", "--json", "comments"]
    );
}

#[test]
fn review_comments_keep_their_place() {
    let gh = GhCli::new();
    let out = gh
        .get_pr_review_comments(
            Ok(String::new()),
            Ok(vec![GhReviewCommentResponse {
                id: 4,
                user: None,
                body: "b".to_string(),
                created_at: None,
                html_url: "h".to_string(),
                path: "p.rs".to_string(),
                line: Some(12),
                side: Some("RIGHT".to_string()),
                diff_hunk: "@@".to_string(),
                author_association: "NONE".to_string(),
            }]),
            at(7),
        )
        .unwrap();
    assert_eq!(out[0].id, 4);
    assert_eq!(out[0].user.login, "unknown");
    assert_eq!((out[0].path.as_str(), out[0].line), ("p.rs", Some(12)));
    assert_eq!(out[0].side.as_deref(), Some("RIGHT"));
    assert_eq!(out[0].created_at, at(7));
    assert_eq!(
        gh.pr_review_comments_command(&repo(None), -3).args,
        vec!["api", "repos/o/r/pulls/-3/comments"]
    );
    assert_eq!(
        gh.pr_review_comments_command(&repo(Some("ghe")), 3).args,
        vec!["api", "repos/o/r/pulls/3/comments", "--hostname", "ghe"]
    );
    assert_eq!(
        gh.get_pr_review_comments(Ok("R".to_string()), Err("e".to_string()), at(1)),
        Err(GhCliError::UnexpectedOutput(
            "Failed to parse review comments API response: e; raw: R".to_string()
        ))
    );
}
