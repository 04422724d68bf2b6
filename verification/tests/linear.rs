use linear_board::json::{parse_json, Json};
use linear_board::linear::client::{
    authorization_header, build_import_filter, classify, is_not_found, json_error_message,
    parse_imported_issues, parse_resolved_issue, split_identifier, LinearClient,
};
use linear_board::linear::error::LinearError;
use linear_board::linear::service::LinearService;
use linear_board::linear::sweep::{ImportSweep, SweepStep};
use linear_board::linear::types::WorkflowState;
use linear_board::board::records::SortKey;
use linear_board::string_map::StringMap;

fn json(text: &str) -> Json {
    parse_json(text).unwrap()
}

fn str_at<'a>(j: &'a Json, path: &[&str]) -> Option<&'a str> {
    j.at(path).and_then(|x| x.as_str())
}

#[test]
fn personal_api_key_sent_verbatim() {
    assert_eq!(authorization_header("lin_api_abc123"), "lin_api_abc123");
}

#[test]
fn oauth_token_gets_bearer_scheme() {
    assert_eq!(
        authorization_header("oauth_opaque_xyz"),
        "Bearer oauth_opaque_xyz"
    );
}

#[test]
fn already_bearer_passed_through() {
    assert_eq!(authorization_header("Bearer tok"), "Bearer tok");
    assert_eq!(authorization_header("  bearer tok  "), "bearer tok");
}

#[test]
fn classify_rate_limited_by_http_status() {
    let err = classify(429, "").unwrap_err();
    assert!(matches!(err, LinearError::RateLimited));
    assert!(err.should_retry());
}

#[test]
fn classify_429_with_html_body_still_retryable() {
    let err = classify(429, "<html>rate limited</html>").unwrap_err();
    assert!(matches!(err, LinearError::RateLimited));
    assert!(err.should_retry());
}

#[test]
fn classify_5xx_with_empty_body_is_retryable_http() {
    let err = classify(503, "").unwrap_err();
    assert!(matches!(err, LinearError::Http(_)));
    assert!(err.should_retry());
}

#[test]
fn classify_auth_failed_by_http_status() {
    let err = classify(401, r#"{"errors":[{"message":"bad token"}]}"#).unwrap_err();
    assert!(matches!(err, LinearError::AuthFailed(_)));
    assert!(!err.should_retry());
}

#[test]
fn classify_graphql_ratelimited_extension() {
    let body = r#"{"errors":[{"message":"slow down","extensions":{"type":"ratelimited"}}]}"#;
    assert!(matches!(
        classify(200, body).unwrap_err(),
        LinearError::RateLimited
    ));
}

#[test]
fn classify_graphql_not_found() {
    let body =
        r#"{"errors":[{"message":"Entity not found","extensions":{"type":"invalid input"}}]}"#;
    let err = classify(200, body).unwrap_err();
    assert!(matches!(err, LinearError::NotFound(_)));
    assert!(!err.should_retry());
}

#[test]
fn classify_returns_data_on_success() {
    let body = r#"{"data":{"issueUpdate":{"success":true}}}"#;
    let data = classify(200, body).unwrap();
    assert_eq!(data.at(&["issueUpdate", "success"]).unwrap(), &Json::Bool(true));
}

#[test]
fn classify_2xx_non_json_is_terminal_malformed() {
    let err = classify(200, "<html>ok?</html>").unwrap_err();
    assert!(matches!(err, LinearError::Malformed(_)));
    assert!(!err.should_retry());
}

#[test]
fn classify_generic_graphql_error_is_terminal_api() {
    let body = r#"{"errors":[{"message":"state not on team"}]}"#;
    let err = classify(200, body).unwrap_err();
    assert!(matches!(err, LinearError::Api(_)));
    assert!(!err.should_retry());
}

#[test]
fn classify_names_status_or_message() {
    assert_eq!(
        classify(500, "oops").unwrap_err(),
        LinearError::Http("HTTP 500".to_string())
    );
    assert_eq!(
        classify(403, r#"{"errors":[{"message":"no"}]}"#).unwrap_err(),
        LinearError::AuthFailed("no".to_string())
    );
    assert_eq!(
        classify(404, r#"{"errors":[]}"#).unwrap_err(),
        LinearError::Api("HTTP 404".to_string())
    );
    assert_eq!(
        classify(302, "").unwrap_err(),
        LinearError::Api("HTTP 302".to_string())
    );
    assert_eq!(
        classify(200, r#"{"errors":[{"extensions":{"type":"Authentication"}}]}"#).unwrap_err(),
        LinearError::AuthFailed("unknown GraphQL error".to_string())
    );
    assert_eq!(
        classify(200, r#"{"errors":[],"data":null}"#).unwrap_err(),
        LinearError::Malformed("response had neither data nor errors".to_string())
    );
    assert_eq!(
        classify(200, r#"{}"#).unwrap_err(),
        LinearError::Malformed("response had neither data nor errors".to_string())
    );
    assert_eq!(
        classify(299, r#"{"data":[7]}"#).unwrap(),
        json("[7]")
    );
    match classify(200, "{").unwrap_err() {
        LinearError::Malformed(m) => assert!(m.starts_with("2xx body not JSON: EOF")),
        other => panic!("{other:?}"),
    }
}

#[test]
fn not_found_is_told_by_kind_or_message() {
    assert!(is_not_found("entity not found", ""));
    assert!(is_not_found("", "Could Not Find referenced issue"));
    assert!(!is_not_found("other", "not found"));
    assert_eq!(
        json_error_message(r#"{"errors":[{"message":"m"},{"message":"n"}]}"#).as_deref(),
        Some("m")
    );
    assert_eq!(json_error_message("nope"), None);
    assert_eq!(json_error_message(r#"{"errors":[{"message":1}]}"#), None);
}

#[test]
fn linear_errors_are_put_into_words() {
    let m = || "x".to_string();
    let words = [
        (LinearError::AuthFailed(m()), "Linear authentication failed: x"),
        (LinearError::RateLimited, "Linear rate limited"),
        (LinearError::NotFound(m()), "Linear entity not found: x"),
        (LinearError::Api(m()), "Linear API error: x"),
        (LinearError::Http(m()), "Linear request failed: x"),
        (LinearError::Malformed(m()), "Linear response malformed: x"),
        (LinearError::UnknownAccount(m()), "unknown Linear account key: x"),
    ];
    for (e, w) in words {
        assert_eq!(e.to_string(), w);
        assert_eq!(
            e.should_retry(),
            matches!(e, LinearError::RateLimited | LinearError::Http(_))
        );
    }
}

#[test]
fn split_identifier_valid() {
    assert_eq!(split_identifier("OOM-123"), Some(("OOM", 123)));
    assert_eq!(split_identifier("  JM-7  "), Some(("JM", 7)));
}

#[test]
fn split_identifier_rejects_malformed() {
    assert_eq!(split_identifier("garbage"), None);
    assert_eq!(split_identifier("-5"), None);
    assert_eq!(split_identifier("OOM-"), None);
    assert_eq!(split_identifier("OOM-abc"), None);
}

#[test]
fn split_identifier_takes_the_last_dash() {
    assert_eq!(split_identifier("A-B-7"), Some(("A-B", 7)));
    assert_eq!(split_identifier("A--7"), Some(("A-", 7)));
    assert_eq!(split_identifier("A-18446744073709551616"), None);
}

#[test]
fn parse_resolved_issue_full() {
    let issue = json(
        r#"{"id": "uuid-1", "identifier": "OOM-123", "url": "https://linear.app/x/OOM-123",
            "state": { "id": "state-uuid" }, "team": { "id": "team-uuid" }}"#,
    );
    let r = parse_resolved_issue(&issue).unwrap();
    assert_eq!(r.id, "uuid-1");
    assert_eq!(r.identifier, "OOM-123");
    assert_eq!(r.state_id.as_deref(), Some("state-uuid"));
    assert_eq!(r.team_id, "team-uuid");
}

#[test]
fn parse_resolved_issue_null_state_ok() {
    let issue = json(
        r#"{"id": "uuid-1", "identifier": "OOM-1", "url": "u",
            "state": null, "team": { "id": "team-uuid" }}"#,
    );
    let r = parse_resolved_issue(&issue).unwrap();
    assert_eq!(r.state_id, None);
}

#[test]
fn parse_resolved_issue_missing_team_is_malformed() {
    let issue = json(r#"{ "id": "u", "identifier": "O-1", "url": "u", "state": null }"#);
    assert!(matches!(
        parse_resolved_issue(&issue).unwrap_err(),
        LinearError::Malformed(_)
    ));
}

#[test]
fn import_filter_without_label_is_assignee_only() {
    let f = build_import_filter("team-1", None, "2026-04-01T00:00:00Z");
    let and = f.get("and").and_then(|x| x.as_array()).unwrap();
    assert_eq!(and.len(), 4);
    assert_eq!(str_at(&and[0], &["team", "id", "eq"]).unwrap(), "team-1");
    assert_eq!(
        and[1].at(&["state", "type", "nin"]).unwrap(),
        &json(r#"["completed", "canceled"]"#)
    );
    assert_eq!(
        str_at(&and[2], &["updatedAt", "gt"]).unwrap(),
        "2026-04-01T00:00:00Z"
    );
    assert_eq!(and[3].at(&["assignee", "isMe", "eq"]).unwrap(), &Json::Bool(true));
    assert!(and[3].get("or").is_none());
}

#[test]
fn import_filter_with_label_is_assignee_or_label() {
    let f = build_import_filter("team-1", Some("agent-eligible"), "2026-04-01T00:00:00Z");
    let who = &f.get("and").and_then(|x| x.as_array()).unwrap()[3];
    let or = who.get("or").and_then(|x| x.as_array()).unwrap();
    assert_eq!(or.len(), 2);
    assert_eq!(or[0].at(&["assignee", "isMe", "eq"]).unwrap(), &Json::Bool(true));
    assert_eq!(
        str_at(&or[1], &["labels", "some", "name", "eq"]).unwrap(),
        "agent-eligible"
    );
}

#[test]
fn parse_imported_issues_full_and_null_state() {
    let nodes = json(
        r#"[
            { "id": "u1", "identifier": "JM-1", "title": "First", "url": "https://l/JM-1",
              "state": { "id": "s1" } },
            { "id": "u2", "identifier": "JM-2", "title": "Second", "url": "https://l/JM-2",
              "state": null }
        ]"#,
    );
    let out = parse_imported_issues(&nodes).unwrap();
    assert_eq!(out.len(), 2);
    assert_eq!(out[0].title, "First");
    assert_eq!(out[0].state_id.as_deref(), Some("s1"));
    assert_eq!(out[1].identifier, "JM-2");
    assert_eq!(out[1].state_id, None);
}

#[test]
fn parse_imported_issues_empty_is_ok() {
    assert!(parse_imported_issues(&json("[]")).unwrap().is_empty());
}

#[test]
fn parse_imported_issues_missing_title_is_malformed() {
    let nodes = json(r#"[{ "id": "u1", "identifier": "JM-1", "url": "u", "state": null }]"#);
    assert!(matches!(
        parse_imported_issues(&nodes).unwrap_err(),
        LinearError::Malformed(_)
    ));
    assert_eq!(
        parse_imported_issues(&nodes).unwrap_err(),
        LinearError::Malformed("issue.title missing".to_string())
    );
}

#[test]
fn parse_imported_issues_non_array_is_malformed() {
    assert!(matches!(
        parse_imported_issues(&json(r#"{ "not": "an array" }"#)).unwrap_err(),
        LinearError::Malformed(_)
    ));
}

#[test]
fn setting_a_state_needs_success() {
    let q = LinearClient::update_issue_state_request("i", "s");
    assert_eq!(q.variables, json_object(&[("id", "i"), ("stateId", "s")]));
    assert_eq!(q.payload().get("variables"), Some(&q.variables));
    assert_eq!(q.payload().get("query").and_then(|x| x.as_str()), Some(q.query));
    let answer = |t: &str| Ok(json(t));
    assert_eq!(
        LinearClient::update_issue_state("i", answer(r#"{"issueUpdate":{"success":true}}"#)),
        Ok(())
    );
    for t in [r#"{"issueUpdate":{"success":false}}"#, "{}", r#"{"issueUpdate":{"success":1}}"#] {
        assert_eq!(
            LinearClient::update_issue_state("i", answer(t)),
            Err(LinearError::Api("issueUpdate(id=i) returned success=false".to_string()))
        );
    }
    assert_eq!(
        LinearClient::update_issue_state("i", Err(LinearError::RateLimited)),
        Err(LinearError::RateLimited)
    );
}

fn json_object(pairs: &[(&str, &str)]) -> Json {
    Json::Object(
        pairs
            .iter()
            .map(|(k, v)| (k.to_string(), Json::Str(v.to_string())))
            .collect(),
    )
}

#[test]
fn workflow_states_are_taken_from_their_nodes() {
    let q = LinearClient::list_workflow_states_request("t");
    assert_eq!(q.variables, json_object(&[("teamId", "t")]));
    let nodes = LinearClient::workflow_state_nodes(Ok(json(r#"{"workflowStates":{"nodes":[1]}}"#)));
    assert_eq!(nodes, Ok(json("[1]")));
    assert_eq!(
        LinearClient::workflow_state_nodes(Ok(json("{}"))),
        Err(LinearError::Malformed("missing workflowStates.nodes".to_string()))
    );
    assert_eq!(
        LinearClient::list_workflow_states(Err("bad".to_string())),
        Err(LinearError::Malformed("workflowStates.nodes: bad".to_string()))
    );
    let state = || WorkflowState {
        id: "s1".to_string(),
        name: "In Progress".to_string(),
        state_type: "started".to_string(),
        position: SortKey { key: 2 },
    };
    assert_eq!(LinearClient::list_workflow_states(Ok(vec![state()])), Ok(vec![state()]));
}

#[test]
fn identifiers_are_resolved_by_key_and_number() {
    let q = LinearClient::resolve_issue_request(" OOM-123 ").unwrap();
    assert_eq!(q.variables, json(r#"{"key": "OOM", "number": 123}"#));
    assert_eq!(
        LinearClient::resolve_issue_request("nope"),
        Err(LinearError::NotFound("nope".to_string()))
    );
    let found = r#"{"issues":{"nodes":[{"id":"u","identifier":"OOM-123","url":"x","state":null,"team":{"id":"t"}}]}}"#;
    let r = LinearClient::resolve_issue_by_identifier("OOM-123", Ok(json(found))).unwrap();
    assert_eq!(r.team_id, "t");
    for none in [r#"{"issues":{"nodes":[]}}"#, r#"{"issues":{"nodes":[null]}}"#, "{}"] {
        assert_eq!(
            LinearClient::resolve_issue_by_identifier("OOM-123", Ok(json(none))),
            Err(LinearError::NotFound("OOM-123".to_string()))
        );
    }
}

fn page(ids: &[&str], next: Option<&str>) -> Result<Json, LinearError> {
    let nodes: Vec<String> = ids
        .iter()
        .map(|i| format!(r#"{{"id":"{i}","identifier":"X-{i}","title":"t","url":"u","state":null}}"#))
        .collect();
    let info = match next {
        Some(c) => format!(r#"{{"hasNextPage":true,"endCursor":"{c}"}}"#),
        None => r#"{"hasNextPage":false,"endCursor":"z"}"#.to_string(),
    };
    Ok(json(&format!(
        r#"{{"issues":{{"nodes":[{}],"pageInfo":{info}}}}}"#,
        nodes.join(",")
    )))
}

#[test]
fn sweeps_walk_from_page_to_page() {
    let mut sweep = ImportSweep::new("t", None, "2026-01-01T00:00:00Z");
    let first = sweep.request();
    assert_eq!(first.variables.get("after"), Some(&Json::Null));
    assert_eq!(first.variables.get("first"), Some(&Json::Number("50".to_string())));
    assert_eq!(
        first.variables.get("filter"),
        Some(&build_import_filter("t", None, "2026-01-01T00:00:00Z"))
    );
    assert_eq!(sweep.take_page(page(&["a", "b"], Some("c1"))), Ok(SweepStep::NextPage));
    assert_eq!(
        sweep.request().variables.get("after").and_then(|x| x.as_str()),
        Some("c1")
    );
    assert_eq!(sweep.take_page(page(&["c"], None)), Ok(SweepStep::Complete));
    let ids: Vec<String> = sweep.into_issues().into_iter().map(|i| i.id).collect();
    assert_eq!(ids, vec!["a", "b", "c"]);
}

#[test]
fn sweeps_stop_at_the_cap() {
    let mut sweep = ImportSweep::new("t", Some("l"), "x");
    for i in 1..40 {
        assert_eq!(sweep.take_page(page(&["a"], Some("c"))), Ok(SweepStep::NextPage), "{i}");
    }
    assert_eq!(sweep.take_page(page(&["a"], Some("c"))), Ok(SweepStep::Capped));
    assert_eq!(sweep.into_issues().len(), 40);
}

#[test]
fn sweeps_fail_on_what_they_cannot_read() {
    let mut sweep = ImportSweep::new("t", None, "x");
    assert_eq!(
        sweep.take_page(Ok(json("{}"))),
        Err(LinearError::Malformed("missing issues.nodes".to_string()))
    );
    assert_eq!(
        sweep.take_page(Err(LinearError::RateLimited)),
        Err(LinearError::RateLimited)
    );
    let odd = json(r#"{"issues":{"nodes":[],"pageInfo":{"hasNextPage":true,"endCursor":null}}}"#);
    assert_eq!(sweep.take_page(Ok(odd)), Ok(SweepStep::Complete));
}

#[test]
fn accounts_are_found_by_key() {
    let mut tokens = StringMap::new();
    tokens.insert("work".to_string(), "lin_api_w".to_string());
    tokens.insert("personal".to_string(), "oauth".to_string());
    let service = LinearService::from_tokens(&tokens);
    assert!(service.has_account("work"));
    assert!(!service.has_account("other"));
    assert_eq!(service.client("work").unwrap().auth_header, "lin_api_w");
    assert_eq!(service.client("personal").unwrap().auth_header, "Bearer oauth");
    assert_eq!(
        service.client("other").unwrap_err(),
        LinearError::UnknownAccount("other".to_string())
    );
    let mut clients = StringMap::new();
    clients.insert("k".to_string(), LinearClient::new("t"));
    let service = LinearService::new(clients);
    assert_eq!(service.client("k").unwrap().auth_header, "Bearer t");
    assert_eq!(service.clone().client("k").unwrap(), service.client("k").unwrap());
    assert!(!LinearService::default().has_account("k"));
}
