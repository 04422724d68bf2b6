use linear_board::api::ApiError;
use linear_board::board::issues::Issues;
use linear_board::board::projects::BoardProjects;
use linear_board::board::records::{
    CreateIssueRequest, CreateProjectRequest, CreateProjectStatusRequest, SortKey,
    UpdateIssueRequest, UpdateProjectStatusRequest, LOCAL_ORG_ID, LOCAL_USER_ID,
};
use linear_board::board::statuses::ProjectStatuses;
use linear_board::board::{Board, BoardError};
use linear_board::config::{Config, LinearAccount};
use linear_board::ids::Uuid;
use linear_board::json::{parse_json, Json};
use linear_board::linear::error::LinearError;
use linear_board::linear::types::{ResolvedIssue, WorkflowState};
use linear_board::routes::board_v1;
use linear_board::routes::linear::{
    bind_project, commit, connect_account, get_project_binding, linear_err, link_issue,
    list_accounts, list_project_links, list_workflow_states, plan_link, preserved_on_reconnect,
    remove_account, set_import_config, set_state_map, unlink_issue, workflow_states_access,
    BindProjectBody, ConnectLinearAccountBody, LinkIssueBody, SetImportConfigBody, SetStateMapBody,
};
use linear_board::routes::remote;
use linear_board::string_map::StringMap;
use linear_board::time::Timestamp;

fn at(secs: i64) -> Timestamp {
    Timestamp { secs, nanos: 0 }
}

fn map(k: &str, v: &str) -> StringMap<String> {
    let mut m = StringMap::new();
    m.insert(k.to_string(), v.to_string());
    m
}

fn account(team: Option<&str>) -> LinearAccount {
    LinearAccount {
        token: Some("lin_api_x".to_string()),
        workspace_name: Some("WS".to_string()),
        team_id: team.map(str::to_string),
        state_map: map("col", "state"),
        import_target_project_id: Some("proj".to_string()),
        import_label: Some("agent-eligible".to_string()),
    }
}

fn config_with(key: &str, account: LinearAccount) -> Config {
    let mut cfg = Config::default();
    cfg.linear.accounts.insert(key.to_string(), account);
    cfg
}

fn bad(m: &str) -> ApiError {
    ApiError::BadRequest(m.to_string())
}

// --- accounts -----------------------------------------------------------------

#[test]
fn reconnect_same_team_preserves_scoped_settings() {
    let prev = account(Some("team-1"));
    let (m, target, label) = preserved_on_reconnect(Some(&prev), Some("team-1"));
    assert_eq!(m.get("col").map(String::as_str), Some("state"));
    assert_eq!(target.as_deref(), Some("proj"));
    assert_eq!(label.as_deref(), Some("agent-eligible"));
}

#[test]
fn reconnect_changed_team_clears_scoped_settings() {
    let prev = account(Some("team-1"));
    let (m, target, label) = preserved_on_reconnect(Some(&prev), Some("team-2"));
    assert!(m.len() == 0);
    assert_eq!(target, None);
    assert_eq!(label, None);
}

#[test]
fn reconnect_cleared_team_clears_scoped_settings() {
    let prev = account(Some("team-1"));
    let (m, target, label) = preserved_on_reconnect(Some(&prev), None);
    assert!(m.len() == 0);
    assert_eq!(target, None);
    assert_eq!(label, None);
}

#[test]
fn fresh_account_has_nothing_to_preserve() {
    let (m, target, label) = preserved_on_reconnect(None, Some("team-1"));
    assert!(m.len() == 0);
    assert_eq!(target, None);
    assert_eq!(label, None);
}

#[test]
fn accounts_are_listed_by_key_without_tokens() {
    let mut cfg = config_with("work", account(None));
    cfg.linear.accounts.insert("alpha".to_string(), LinearAccount::default());
    cfg.linear.accounts.insert("personal".to_string(), account(None));
    let views = list_accounts(&cfg);
    let shown: Vec<(&str, bool)> = views.iter().map(|v| (v.key.as_str(), v.has_token)).collect();
    assert_eq!(shown, vec![("alpha", false), ("personal", true), ("work", true)]);
    assert!(views.iter().all(|v| !format!("{v:?}").contains("lin_api_x")));
}

fn connect(key: &str, token: &str, team: Option<&str>) -> ConnectLinearAccountBody {
    ConnectLinearAccountBody {
        key: key.to_string(),
        token: token.to_string(),
        workspace_name: None,
        team_id: team.map(str::to_string),
    }
}

#[test]
fn connecting_checks_and_keeps() {
    let cfg = config_with("work", account(Some("t")));
    assert_eq!(
        connect_account(&cfg, connect("  ", "x", None)).err(),
        Some(bad("account key must not be empty"))
    );
    assert_eq!(
        connect_account(&cfg, connect("work", "\t", None)).err(),
        Some(bad("token must not be empty"))
    );
    let same = connect_account(&cfg, connect(" work ", " tok ", Some("t"))).ok().unwrap();
    let kept = same.next.linear.accounts.get("work").unwrap();
    assert_eq!(kept.token.as_deref(), Some(" tok "));
    assert_eq!(kept.workspace_name, None);
    assert_eq!(kept.import_label.as_deref(), Some("agent-eligible"));
    assert_eq!(same.view.key, "work");
    assert!(same.view.has_token);
    let other = connect_account(&cfg, connect("work", "tok", Some("u"))).ok().unwrap();
    assert_eq!(other.next.linear.accounts.get("work").unwrap().state_map.len(), 0);
    assert_eq!(other.view.import_target_project_id, None);
    let gone = remove_account(&same.next, "work");
    assert!(!gone.linear.accounts.contains_key("work"));
}

#[test]
fn memory_is_never_ahead_of_disk() {
    let cfg = Config::default();
    let next = config_with("work", account(None));
    let (kept, r) = commit(cfg, next, Err("disk full".to_string()));
    assert_eq!(r, Err(bad("failed to save config: disk full")));
    assert_eq!(kept.linear.accounts.len(), 0);
    let (taken, r) = commit(kept, config_with("work", account(None)), Ok(()));
    assert_eq!(r, Ok(()));
    assert_eq!(taken.linear.accounts.len(), 1);
}

#[test]
fn state_maps_are_set_on_known_accounts() {
    let cfg = config_with("work", account(None));
    let change = set_state_map(&cfg, "work", SetStateMapBody { state_map: map("a", "b") })
        .ok()
        .unwrap();
    assert_eq!(change.view.state_map.get("a").map(String::as_str), Some("b"));
    assert_eq!(change.view.state_map.len(), 1);
    assert_eq!(
        change.next.linear.accounts.get("work").unwrap().token.as_deref(),
        Some("lin_api_x")
    );
    assert_eq!(
        set_state_map(&cfg, "nope", SetStateMapBody { state_map: StringMap::new() }).err(),
        Some(bad("unknown Linear account 'nope'"))
    );
}

#[test]
fn workflow_states_need_token_and_team() {
    let cfg = config_with("work", account(Some("t")));
    let (client, team) = workflow_states_access(&cfg, "work").unwrap();
    assert_eq!((client.auth_header.as_str(), team.as_str()), ("lin_api_x", "t"));
    assert_eq!(
        workflow_states_access(&cfg, "x").unwrap_err(),
        bad("unknown Linear account 'x'")
    );
    assert_eq!(
        workflow_states_access(&config_with("a", LinearAccount::default()), "a").unwrap_err(),
        bad("account 'a' has no token")
    );
    assert_eq!(
        workflow_states_access(&config_with("a", account(None)), "a").unwrap_err(),
        bad("account 'a' has no team configured")
    );
    let views = list_workflow_states(Ok(vec![WorkflowState {
        id: "i".to_string(),
        name: "n".to_string(),
        state_type: "started".to_string(),
        position: SortKey { key: 4 },
    }]))
    .unwrap();
    assert_eq!((views[0].name.as_str(), views[0].position), ("n", SortKey { key: 4 }));
    assert_eq!(
        list_workflow_states(Err(LinearError::RateLimited)).unwrap_err(),
        ApiError::BadGateway("Linear API error: Linear rate limited".to_string())
    );
}

#[test]
fn linear_errors_are_answered() {
    assert_eq!(
        linear_err(LinearError::AuthFailed("m".to_string())),
        ApiError::Forbidden("Linear auth failed: m".to_string())
    );
    assert_eq!(
        linear_err(LinearError::NotFound("m".to_string())),
        bad("not found in Linear: m")
    );
    assert_eq!(
        linear_err(LinearError::Api("m".to_string())),
        ApiError::BadGateway("Linear API error: Linear API error: m".to_string())
    );
}

// --- a board --------------------------------------------------------------------

fn issue_request(project_id: Uuid, status_id: Uuid) -> CreateIssueRequest {
    CreateIssueRequest {
        id: None,
        project_id,
        status_id,
        title: "card".to_string(),
        description: None,
        priority: None,
        start_date: None,
        target_date: None,
        completed_at: None,
        sort_order: SortKey { key: 0 },
        parent_issue_id: None,
        parent_issue_sort_order: None,
        extension_metadata: serde_json::Value::Null,
    }
}

fn no_change() -> UpdateIssueRequest {
    UpdateIssueRequest {
        status_id: None,
        title: None,
        description: None,
        priority: None,
        start_date: None,
        target_date: None,
        completed_at: None,
        sort_order: None,
        parent_issue_id: None,
        parent_issue_sort_order: None,
        extension_metadata: None,
    }
}

/// A board with a project bound to `work` and a card.
fn scene() -> (Board, Uuid, Vec<Uuid>, Uuid) {
    let mut board = Board::new();
    let req = CreateProjectRequest {
        id: None,
        organization_id: Uuid::from_u128(LOCAL_ORG_ID),
        name: "B".to_string(),
        color: "c".to_string(),
    };
    let project = BoardProjects::create(&mut board, &req, at(1)).unwrap().id;
    BoardProjects::set_linear_account_key(&mut board, project, Some("work".to_string()));
    let columns: Vec<Uuid> =
        ProjectStatuses::list_by_project(&board, project).iter().map(|s| s.id).collect();
    let card = remote::create_issue(&mut board, &issue_request(project, columns[0]), at(2))
        .unwrap()
        .data
        .id;
    (board, project, columns, card)
}

#[test]
fn import_targets_must_be_bound() {
    let (mut board, project, _, _) = scene();
    let cfg = config_with("work", account(None));
    let body = |target: Option<String>| SetImportConfigBody {
        import_target_project_id: target,
        import_label: None,
    };
    let ok = set_import_config(&cfg, &board, "work", body(Some(project.to_string()))).ok().unwrap();
    assert_eq!(ok.view.import_target_project_id, Some(project.to_string()));
    assert_eq!(ok.view.import_label, None);
    let off = set_import_config(&cfg, &board, "work", body(None)).ok().unwrap();
    assert_eq!(off.view.import_target_project_id, None);
    assert_eq!(
        set_import_config(&cfg, &board, "work", body(Some("zzz".to_string()))).err(),
        Some(bad("import_target_project_id is not a valid UUID"))
    );
    assert_eq!(
        set_import_config(&cfg, &board, "x", body(None)).err(),
        Some(bad("unknown Linear account 'x'"))
    );
    BoardProjects::set_linear_account_key(&mut board, project, Some("o\"ther".to_string()));
    assert_eq!(
        set_import_config(&cfg, &board, "work", body(Some(project.to_string()))).err(),
        Some(bad(
            "import target project must be bound to account 'work' (currently bound to Some(\"o\\\"ther\"))"
        ))
    );
    BoardProjects::set_linear_account_key(&mut board, project, None);
    assert_eq!(
        set_import_config(&cfg, &board, "work", body(Some(project.to_string()))).err(),
        Some(bad(
            "import target project must be bound to account 'work' (currently bound to None)"
        ))
    );
}

#[test]
fn boards_are_bound_to_known_accounts() {
    let (mut board, project, _, _) = scene();
    let cfg = config_with("other", account(None));
    let body = |k: Option<&str>| BindProjectBody { account_key: k.map(str::to_string) };
    assert_eq!(
        bind_project(&cfg, &mut board, project, body(Some("nope"))),
        Err(bad("unknown Linear account 'nope'"))
    );
    assert_eq!(get_project_binding(&board, project).account_key.as_deref(), Some("work"));
    bind_project(&cfg, &mut board, project, body(Some("other"))).unwrap();
    assert_eq!(get_project_binding(&board, project).account_key.as_deref(), Some("other"));
    bind_project(&cfg, &mut board, project, body(None)).unwrap();
    assert_eq!(get_project_binding(&board, project).account_key, None);
}

fn link_body(s: &str) -> LinkIssueBody {
    LinkIssueBody { identifier: s.to_string() }
}

fn resolved(team: &str, state: Option<&str>) -> ResolvedIssue {
    ResolvedIssue {
        id: "L1".to_string(),
        identifier: "OOM-1".to_string(),
        url: "u".to_string(),
        state_id: state.map(str::to_string),
        team_id: team.to_string(),
    }
}

#[test]
fn linking_needs_a_card_a_binding_and_a_token() {
    let (mut board, project, _, card) = scene();
    let cfg = config_with("work", account(Some("t")));
    let plan = |board: &Board, cfg: &Config, id: Uuid, s: &str| {
        plan_link(board, cfg, id, &link_body(s)).err()
    };
    assert_eq!(plan(&board, &cfg, card, "  "), Some(bad("identifier must not be empty")));
    assert_eq!(
        plan(&board, &cfg, Uuid::from_u128(5), "OOM-1"),
        Some(bad("no such card 00000000-0000-0000-0000-000000000005"))
    );
    assert_eq!(
        plan(&board, &Config::default(), card, "OOM-1"),
        Some(bad("board is bound to unknown account 'work'"))
    );
    assert_eq!(
        plan(&board, &config_with("work", LinearAccount::default()), card, "OOM-1"),
        Some(bad("account 'work' has no token"))
    );
    assert_eq!(plan(&board, &cfg, card, "OOM-1"), None);
    BoardProjects::set_linear_account_key(&mut board, project, None);
    assert_eq!(
        plan(&board, &cfg, card, "OOM-1"),
        Some(bad("this card's board is not bound to a Linear account; bind it first"))
    );
}

#[test]
fn linking_reconciles_for_the_board() {
    let (mut board, project, columns, card) = scene();
    let mut acct = account(Some("t"));
    acct.state_map = map(&columns[0].to_string(), "todo");
    let cfg = config_with("work", acct);
    let plan = plan_link(&board, &cfg, card, &link_body(" OOM-1 ")).unwrap();
    assert_eq!(plan.identifier, "OOM-1");
    assert_eq!(plan.mapped_target.as_deref(), Some("todo"));
    assert_eq!(
        link_issue(&mut board, card, &plan, Ok(resolved("other", None))),
        Err(bad("OOM-1 belongs to a different Linear team than account 'work'"))
    );
    assert_eq!(
        link_issue(&mut board, card, &plan, Err(LinearError::NotFound("OOM-1".to_string()))),
        Err(bad("not found in Linear: OOM-1"))
    );
    let (view, nudge) =
        link_issue(&mut board, card, &plan, Ok(resolved("t", Some("todo")))).unwrap();
    assert_eq!(view.linear_issue_id, "L1");
    assert_eq!(view.linear_state_id.as_deref(), Some("todo"));
    assert!(!nudge);
    assert!(Issues::list_pending_linear_sync(&board).is_empty());
    let (_, nudge) = link_issue(&mut board, card, &plan, Ok(resolved("t", Some("done")))).unwrap();
    assert!(nudge);
    assert_eq!(Issues::list_pending_linear_sync(&board).len(), 1);
    let badges = list_project_links(&board, project).unwrap();
    assert_eq!(badges[0].issue_id, card.to_string());
    assert!(badges[0].linear_sync_pending);
    let second = remote::create_issue(&mut board, &issue_request(project, columns[0]), at(3))
        .unwrap()
        .data
        .id;
    assert_eq!(
        link_issue(&mut board, second, &plan, Ok(resolved("t", None))),
        Err(ApiError::Conflict("OOM-1 is already linked to another card".to_string()))
    );
    unlink_issue(&mut board, card);
    assert!(list_project_links(&board, project).unwrap().is_empty());
    let (_, nudge) = link_issue(&mut board, second, &plan, Ok(resolved("t", None))).unwrap();
    assert!(nudge, "an issue without a state differs from a mapped one");
}

#[test]
fn badges_of_broken_links_are_an_error() {
    let (mut board, project, _, card) = scene();
    Issues::link_linear(&mut board, card, "L", "I", "u", None, false).unwrap();
    board.issues[0].linear_issue_identifier = None;
    assert_eq!(
        list_project_links(&board, project),
        Err(ApiError::Board(BoardError::MissingValue))
    );
}

// --- snapshots and changes --------------------------------------------------------

#[test]
fn the_local_organization_is_the_only_one() {
    let orgs = board_v1::list_organizations(at(3));
    assert_eq!(orgs.len(), 1);
    assert_eq!(orgs[0].id, Uuid::from_u128(LOCAL_ORG_ID));
    assert_eq!(orgs[0].name, "Local Board");
    assert_eq!(orgs[0].slug, "local");
    assert_eq!(orgs[0].issue_prefix, "VK");
    assert!(orgs[0].is_personal);
    assert_eq!(orgs[0].user_role, board_v1::MemberRole::Admin);
    assert_eq!(orgs[0].created_at, at(3));
}

#[test]
fn tables_are_named_after_their_paths_but_for_some() {
    assert_eq!(board_v1::fallback_table("tags"), "tags");
    assert_eq!(
        board_v1::fallback_table("organization_members"),
        "organization_member_metadata"
    );
    assert_eq!(board_v1::fallback_table("user_workspaces"), "workspaces");
    assert_eq!(board_v1::fallback_table("project_workspaces"), "workspaces");
    assert_eq!(board_v1::fallback_stub("tags"), parse_json(r#"{"tags":[]}"#).unwrap());
    assert_eq!(board_v1::ack(), parse_json(r#"{"txid":0}"#).unwrap());
}

#[test]
fn bulk_items_need_an_id() {
    let item = |t: &str| parse_json(t).unwrap();
    let id = Uuid::from_u128(3);
    let good = item(&format!(r#"{{"id":"{}","title":"x"}}"#, id.to_string()));
    assert_eq!(board_v1::split_bulk_item(&good, Ok(5u8)), Ok((id, 5u8)));
    assert_eq!(
        board_v1::split_bulk_item::<u8>(&good, Err("e".to_string())),
        Err(bad("invalid bulk update item: e"))
    );
    for t in ["{}", r#"{"id":7}"#, r#"{"id":"x"}"#, "[]"] {
        assert_eq!(
            board_v1::split_bulk_item(&item(t), Ok(5u8)),
            Err(bad("bulk update item missing valid `id`"))
        );
    }
}

#[test]
fn changes_go_through_or_are_refused() {
    let (mut board, project, columns, card) = scene();
    assert_eq!(board.issues[0].creator_user_id, Some(Uuid::from_u128(LOCAL_USER_ID)));
    board_v1::create_issue(&mut board, &issue_request(project, columns[0]), at(3)).unwrap();
    assert_eq!(board.issues.len(), 2);
    let missing = Uuid::from_u128(1);
    let not_found = || Err(ApiError::Board(BoardError::RowNotFound));
    let no_card = || Err(ApiError::Board(BoardError::RowNotFound));
    assert_eq!(board_v1::update_issue(&mut board, missing, &no_change(), at(4)), no_card());
    assert_eq!(board_v1::update_issue(&mut board, card, &no_change(), at(4)), Ok(false));
    assert_eq!(
        board_v1::bulk_update_issues(&mut board, &vec![(missing, no_change())], at(4)),
        no_card()
    );
    let mut r = no_change();
    r.title = Some("t".to_string());
    let (changed, nudge) = remote::update_issue(&mut board, card, &r, at(4)).unwrap();
    assert_eq!((changed.data.title.as_str(), changed.txid, nudge), ("t", 0, false));
    assert_eq!(
        board_v1::delete_status(&mut board, columns[0]),
        Err(ApiError::Conflict(
            "cannot delete a column that still has cards; move or delete them first".to_string()
        ))
    );
    assert_eq!(board_v1::delete_status(&mut board, columns[1]), Ok(()));
    board_v1::delete_issue(&mut board, card);
    assert!(remote::get_issue(&board, card).is_err());
    let req = CreateProjectStatusRequest {
        id: Some(columns[2]),
        project_id: project,
        name: "n".to_string(),
        color: "c".to_string(),
        sort_order: 0,
        hidden: false,
    };
    assert_eq!(
        board_v1::create_status(&mut board, &req, at(5)),
        Err(ApiError::Board(BoardError::UniqueViolation))
    );
    let rename = || UpdateProjectStatusRequest {
        name: Some("n".to_string()),
        color: None,
        sort_order: None,
        hidden: None,
    };
    assert_eq!(board_v1::update_status(&mut board, columns[2], &rename()), Ok(()));
    assert_eq!(
        board_v1::bulk_update_statuses(&mut board, &vec![(columns[2], rename())]),
        Ok(())
    );
    assert_eq!(board_v1::update_status(&mut board, columns[1], &rename()), not_found());
}

#[test]
fn moving_a_linked_card_wakes_the_mirror() {
    let (mut board, _, columns, card) = scene();
    let to = |c: Uuid| {
        let mut r = no_change();
        r.status_id = Some(c);
        r
    };
    let moved = |board: &mut Board, c: Uuid| board_v1::update_issue(board, card, &to(c), at(4));
    assert_eq!(moved(&mut board, columns[1]), Ok(false), "not linked");
    Issues::link_linear(&mut board, card, "L", "I", "u", None, false).unwrap();
    assert_eq!(moved(&mut board, columns[1]), Ok(false), "not moved");
    assert_eq!(moved(&mut board, columns[2]), Ok(true));
    assert_eq!(Issues::list_pending_linear_sync(&board).len(), 1);
    let (_, nudge) = remote::update_issue(&mut board, card, &to(columns[0]), at(4)).unwrap();
    assert!(nudge);
    let there_and_back = vec![(card, to(columns[1])), (card, to(columns[0]))];
    assert_eq!(board_v1::bulk_update_issues(&mut board, &there_and_back, at(5)), Ok(true));
    assert_eq!(
        board_v1::bulk_update_issues(&mut board, &vec![(card, to(columns[0]))], at(5)),
        Ok(false)
    );
}

#[test]
fn executor_variants_must_be_known() {
    let (mut board, project, _, _) = scene();
    let body = |v: Option<&str>| remote::SetClaudeVariantBody { variant: v.map(str::to_string) };
    let set = remote::set_project_claude_variant(
        &mut board,
        project,
        &body(Some("work")),
        "WORK".to_string(),
        true,
    )
    .unwrap();
    assert_eq!(set.variant.as_deref(), Some("WORK"));
    assert_eq!(
        remote::set_project_claude_variant(
            &mut board,
            project,
            &body(Some("typo")),
            "TYPO".to_string(),
            false
        ),
        Err(bad("unknown variant 'typo' — not a CLAUDE_CODE profile variant"))
    );
    assert_eq!(
        remote::get_project_claude_variant(&board, project).variant.as_deref(),
        Some("WORK")
    );
    remote::set_project_claude_variant(&mut board, project, &body(None), String::new(), false)
        .unwrap();
    assert_eq!(remote::get_project_claude_variant(&board, project).variant, None);
    assert!(remote::get_remote_project(&board, project).is_ok());
    assert_eq!(
        remote::get_remote_project(&board, Uuid::from_u128(4)),
        Err(ApiError::Board(BoardError::RowNotFound))
    );
}

#[test]
fn documents_are_shown_under_their_table() {
    let rows = Json::Array(vec![Json::Bool(true)]);
    assert_eq!(
        board_v1::snapshot("issues", rows),
        parse_json(r#"{"issues":[true]}"#).unwrap()
    );
}
