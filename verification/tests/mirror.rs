use linear_board::board::issues::Issues;
use linear_board::board::projects::BoardProjects;
use linear_board::board::records::{
    CreateIssueRequest, CreateProjectRequest, PendingLinearSync, SortKey, UpdateIssueRequest,
    UpdateProjectStatusRequest, LOCAL_ORG_ID,
};
use linear_board::board::statuses::ProjectStatuses;
use linear_board::board::{Board, BoardError};
use linear_board::config::{Config, ConfigV7, LinearAccount, SendMessageShortcut};
use linear_board::ids::Uuid;
use linear_board::json::{parse_json, Json};
use linear_board::linear::error::LinearError;
use linear_board::linear::types::ImportedIssue;
use linear_board::monitor::{
    carry_out, drain_pending, drain_plan, import_for_account, import_gate, make_cards, plan_import,
    plan_imports, push_one, push_request, resolve, runs_inbound, updated_after, Action, ImportError,
    ImportGate, PushReport, Wake,
};
use linear_board::string_map::StringMap;
use linear_board::time::Timestamp;

fn at(secs: i64) -> Timestamp {
    Timestamp { secs, nanos: 0 }
}

fn pending(account_key: Option<&str>, status_id: Uuid) -> PendingLinearSync {
    PendingLinearSync {
        id: Uuid::from_u128(9),
        status_id,
        linear_issue_id: "issue-uuid".to_string(),
        linear_account_key: account_key.map(str::to_string),
    }
}

fn config_with(key: &str, account: LinearAccount) -> Config {
    let mut cfg = Config::default();
    cfg.linear.accounts.insert(key.to_string(), account);
    cfg
}

fn map(k: &str, v: &str) -> StringMap<String> {
    let mut m = StringMap::new();
    m.insert(k.to_string(), v.to_string());
    m
}

// --- what is done about a card ------------------------------------------------

#[test]
fn unbound_project_clears() {
    let cfg = Config::default();
    let action = resolve(&cfg, &pending(None, Uuid::from_u128(1)));
    assert!(matches!(action, Action::Clear { .. }));
}

#[test]
fn unknown_account_leaves() {
    let cfg = Config::default();
    let action = resolve(&cfg, &pending(Some("work"), Uuid::from_u128(1)));
    assert!(matches!(action, Action::Leave { .. }));
}

#[test]
fn missing_token_leaves() {
    let cfg = config_with(
        "work",
        LinearAccount {
            token: None,
            ..Default::default()
        },
    );
    let action = resolve(&cfg, &pending(Some("work"), Uuid::from_u128(1)));
    assert!(matches!(action, Action::Leave { .. }));
}

#[test]
fn unmapped_column_clears() {
    let cfg = config_with(
        "work",
        LinearAccount {
            token: Some("lin_api_x".to_string()),
            state_map: StringMap::new(),
            ..Default::default()
        },
    );
    let action = resolve(&cfg, &pending(Some("work"), Uuid::from_u128(1)));
    assert!(matches!(action, Action::Clear { .. }));
}

#[test]
fn fully_mapped_pushes() {
    let status = Uuid::from_u128(42);
    let cfg = config_with(
        "work",
        LinearAccount {
            token: Some("lin_api_x".to_string()),
            state_map: map(&status.to_string(), "linear-state-uuid"),
            ..Default::default()
        },
    );
    let action = resolve(&cfg, &pending(Some("work"), status));
    match action {
        Action::Push {
            state_id, token, ..
        } => {
            assert_eq!(state_id, "linear-state-uuid");
            assert_eq!(token, "lin_api_x");
        }
        _ => panic!("expected Push"),
    }
}

#[test]
fn reasons_name_the_account() {
    let cfg = config_with("work", LinearAccount::default());
    assert_eq!(
        resolve(&cfg, &pending(Some("work"), Uuid::from_u128(1))),
        Action::Leave {
            id: Uuid::from_u128(9),
            reason: "Linear account 'work' has no token".to_string()
        }
    );
    assert_eq!(
        resolve(&cfg, &pending(Some("x"), Uuid::from_u128(1))),
        Action::Leave {
            id: Uuid::from_u128(9),
            reason: "unknown Linear account 'x'".to_string()
        }
    );
    assert_eq!(
        resolve(&cfg, &pending(None, Uuid::from_u128(1))),
        Action::Clear {
            id: Uuid::from_u128(9),
            status_id: Uuid::from_u128(1),
            reason: "project has no bound Linear account"
        }
    );
}

// --- which accounts import ------------------------------------------------------

fn import_account(token: Option<&str>, team: Option<&str>, target: Option<&str>) -> LinearAccount {
    LinearAccount {
        token: token.map(str::to_string),
        team_id: team.map(str::to_string),
        import_target_project_id: target.map(str::to_string),
        ..Default::default()
    }
}

#[test]
fn plan_import_requires_token_team_and_target() {
    assert!(
        plan_import(
            "work",
            &import_account(None, Some("t"), Some(&Uuid::from_u128(1).to_string()))
        )
        .is_none()
    );
    assert!(
        plan_import(
            "work",
            &import_account(Some("k"), None, Some(&Uuid::from_u128(1).to_string()))
        )
        .is_none()
    );
    assert!(plan_import("work", &import_account(Some("k"), Some("t"), None)).is_none());
}

#[test]
fn plan_import_rejects_unparseable_target() {
    assert!(
        plan_import(
            "work",
            &import_account(Some("k"), Some("t"), Some("not-a-uuid"))
        )
        .is_none()
    );
}

#[test]
fn plan_import_fully_configured_yields_plan() {
    let target = Uuid::from_u128(7);
    let mut acct = import_account(Some("lin_api_x"), Some("team-9"), Some(&target.to_string()));
    acct.import_label = Some("agent-eligible".to_string());
    let plan = plan_import("work", &acct).expect("configured account yields a plan");
    assert_eq!(plan.account_key, "work");
    assert_eq!(plan.token, "lin_api_x");
    assert_eq!(plan.team_id, "team-9");
    assert_eq!(plan.target_project_id, target);
    assert_eq!(plan.label.as_deref(), Some("agent-eligible"));
}

#[test]
fn only_configured_accounts_import() {
    let target = Uuid::from_u128(7).to_string();
    let mut cfg = config_with("a", import_account(Some("k"), Some("t"), None));
    cfg.linear
        .accounts
        .insert("b".to_string(), import_account(Some("k"), Some("t"), Some(&target)));
    cfg.linear
        .accounts
        .insert("c".to_string(), import_account(Some("k"), Some("t"), Some(&target)));
    let keys: Vec<String> = plan_imports(&cfg).into_iter().map(|p| p.account_key).collect();
    assert_eq!(keys, vec!["b", "c"]);
}

#[test]
fn imports_run_on_the_tick_only() {
    assert!(runs_inbound(Wake::Tick));
    assert!(!runs_inbound(Wake::Nudge));
}

#[test]
fn imports_look_ninety_days_back() {
    let now = Timestamp { secs: 1_767_225_600, nanos: 500_000_000 };
    assert_eq!(
        updated_after(now).as_deref(),
        Some("2025-10-03T00:00:00.500+00:00")
    );
    assert_eq!(updated_after(at(i64::MIN)), None);
    assert_eq!(updated_after(at(i64::MAX)), None);
}

// --- a board with a linked card -------------------------------------------------

struct Scene {
    board: Board,
    project: Uuid,
    columns: Vec<Uuid>,
    card: Uuid,
    cfg: Config,
}

fn issue_request(project_id: Uuid, status_id: Uuid) -> CreateIssueRequest {
    CreateIssueRequest {
        id: None,
        project_id,
        status_id,
        title: "card".to_string(),
        description: None,
        priority: None,
        start_date: None,
        target_date: None,
        completed_at: None,
        sort_order: SortKey { key: 0 },
        parent_issue_id: None,
        parent_issue_sort_order: None,
        extension_metadata: serde_json::Value::Null,
    }
}

fn move_to(board: &mut Board, id: Uuid, status_id: Uuid) {
    let req = UpdateIssueRequest {
        status_id: Some(status_id),
        title: None,
        description: None,
        priority: None,
        start_date: None,
        target_date: None,
        completed_at: None,
        sort_order: None,
        parent_issue_id: None,
        parent_issue_sort_order: None,
        extension_metadata: None,
    };
    Issues::update(board, id, &req, at(5)).unwrap();
}

/// A linked card that was moved to the second column, which is mapped.
fn scene() -> Scene {
    let mut board = Board::new();
    let req = CreateProjectRequest {
        id: None,
        organization_id: Uuid::from_u128(LOCAL_ORG_ID),
        name: "B".to_string(),
        color: "c".to_string(),
    };
    let project = BoardProjects::create(&mut board, &req, at(1)).unwrap().id;
    BoardProjects::set_linear_account_key(&mut board, project, Some("work".to_string()));
    let columns: Vec<Uuid> =
        ProjectStatuses::list_by_project(&board, project).iter().map(|s| s.id).collect();
    let card = Issues::create(&mut board, &issue_request(project, columns[0]), None, at(2))
        .unwrap()
        .id;
    Issues::link_linear(&mut board, card, "L1", "OOM-1", "u", None, false).unwrap();
    move_to(&mut board, card, columns[1]);
    let cfg = config_with(
        "work",
        LinearAccount {
            token: Some("lin_api_x".to_string()),
            state_map: map(&columns[1].to_string(), "state-1"),
            ..Default::default()
        },
    );
    Scene { board, project, columns, card, cfg }
}

fn success() -> Result<Json, LinearError> {
    Ok(parse_json(r#"{"issueUpdate":{"success":true}}"#).unwrap())
}

fn is_pending(s: &Scene) -> bool {
    !Issues::list_pending_linear_sync(&s.board).is_empty()
}

#[test]
fn a_push_that_succeeds_settles_the_card() {
    let mut s = scene();
    let plan = drain_plan(&s.board, &s.cfg);
    assert_eq!(plan.len(), 1);
    let (client, request) = push_request(&plan[0]).unwrap();
    assert_eq!(client.auth_header, "lin_api_x");
    assert_eq!(request.variables.get("id").and_then(|x| x.as_str()), Some("L1"));
    assert_eq!(request.variables.get("stateId").and_then(|x| x.as_str()), Some("state-1"));
    assert_eq!(
        carry_out(&mut s.board, &plan[0], success()),
        Some(PushReport::Synced)
    );
    assert!(!is_pending(&s));
    assert_eq!(s.board.issues[0].linear_state_id.as_deref(), Some("state-1"));
    assert!(drain_plan(&s.board, &s.cfg).is_empty(), "nothing bounces back");
}

#[test]
fn an_issue_that_is_gone_unlinks_the_card() {
    let mut s = scene();
    let gone = Err(LinearError::NotFound("x".to_string()));
    assert_eq!(drain_pending(&mut s.board, &s.cfg, vec![gone]), 1);
    assert!(!is_pending(&s));
    assert_eq!(s.board.issues[0].linear_issue_id, None);
}

#[test]
fn a_push_that_may_recover_is_not_forgotten() {
    for (e, report) in [
        (LinearError::RateLimited, PushReport::Transient),
        (LinearError::Http("x".to_string()), PushReport::Transient),
        (LinearError::AuthFailed("x".to_string()), PushReport::Stuck),
        (LinearError::UnknownAccount("x".to_string()), PushReport::Stuck),
    ] {
        let mut s = scene();
        let (card, column) = (s.card, s.columns[1]);
        assert_eq!(push_one(&mut s.board, card, column, "L1", "state-1", Err(e)), report);
        assert!(is_pending(&s));
        assert_eq!(s.board.issues[0].linear_issue_id.as_deref(), Some("L1"));
    }
}

#[test]
fn a_push_that_would_fail_again_is_given_up() {
    let refused = || Ok(parse_json(r#"{"issueUpdate":{"success":false}}"#).unwrap());
    for answer in [
        Err(LinearError::Api("x".to_string())),
        Err(LinearError::Malformed("x".to_string())),
        refused(),
    ] {
        let mut s = scene();
        let (card, column) = (s.card, s.columns[1]);
        assert_eq!(
            push_one(&mut s.board, card, column, "L1", "state-1", answer),
            PushReport::GivenUp
        );
        assert!(!is_pending(&s));
        assert_eq!(s.board.issues[0].linear_issue_id.as_deref(), Some("L1"));
        assert_eq!(s.board.issues[0].linear_state_id, None);
    }
    let mut s = scene();
    let (card, elsewhere) = (s.card, s.columns[2]);
    push_one(&mut s.board, card, elsewhere, "L1", "state-1", refused());
    assert!(is_pending(&s), "a card that moved meanwhile keeps its mark");
}

#[test]
fn cards_are_settled_one_by_one() {
    let mut s = scene();
    let second = Issues::create(&mut s.board, &issue_request(s.project, s.columns[0]), None, at(3))
        .unwrap()
        .id;
    Issues::link_linear(&mut s.board, second, "L2", "OOM-2", "u", None, false).unwrap();
    move_to(&mut s.board, second, s.columns[1]);
    let answers = vec![Err(LinearError::AuthFailed("x".to_string())), success()];
    assert_eq!(drain_pending(&mut s.board, &s.cfg, answers), 2);
    let left = Issues::list_pending_linear_sync(&s.board);
    assert_eq!(left.len(), 1);
    assert_eq!(left[0].id, s.card);
    assert_eq!(s.board.issues[1].linear_state_id.as_deref(), Some("state-1"));
    assert_eq!(s.board.issues[0].linear_state_id, None);
}

#[test]
fn a_card_that_moves_during_a_push_stays_marked() {
    let mut s = scene();
    let plan = drain_plan(&s.board, &s.cfg);
    move_to(&mut s.board, s.card, s.columns[2]);
    carry_out(&mut s.board, &plan[0], success());
    assert!(is_pending(&s));
    let next = drain_plan(&s.board, &s.cfg);
    assert!(matches!(next[0], Action::Clear { .. }), "the new column is not mapped");
    assert_eq!(push_request(&next[0]), None);
    assert_eq!(carry_out(&mut s.board, &next[0], success()), None);
    assert!(!is_pending(&s));
    assert_eq!(s.board.issues[0].linear_state_id, None);
}

#[test]
fn a_card_of_an_unknown_account_is_left() {
    let mut s = scene();
    s.cfg.linear.accounts.remove("work");
    let plan = drain_plan(&s.board, &s.cfg);
    assert_eq!(carry_out(&mut s.board, &plan[0], success()), None);
    assert!(is_pending(&s));
}

// --- importing ------------------------------------------------------------------

fn found(id: &str, state: Option<&str>) -> ImportedIssue {
    ImportedIssue {
        id: id.to_string(),
        identifier: format!("OOM-{id}"),
        title: format!("Title {id}"),
        url: "u".to_string(),
        state_id: state.map(str::to_string),
    }
}

#[test]
fn the_gate_checks_binding_and_columns() {
    let mut s = scene();
    let target = s.project.to_string();
    let plan = plan_import("work", &import_account(Some("k"), Some("t"), Some(&target))).unwrap();
    match import_gate(&s.board, &plan) {
        ImportGate::Open(columns) => assert_eq!(columns.len(), 5),
        other => panic!("{other:?}"),
    }
    for c in &s.columns {
        let hide = UpdateProjectStatusRequest {
            name: None,
            color: None,
            sort_order: None,
            hidden: Some(true),
        };
        ProjectStatuses::update(&mut s.board, *c, &hide).unwrap();
    }
    assert_eq!(import_gate(&s.board, &plan), ImportGate::NoVisibleColumn);
    BoardProjects::set_linear_account_key(&mut s.board, s.project, Some("other".to_string()));
    assert_eq!(import_gate(&s.board, &plan), ImportGate::Unbound);
}

#[test]
fn fetched_issues_become_cards_in_their_columns() {
    let mut s = scene();
    let target = s.project.to_string();
    let mut account = import_account(Some("k"), Some("t"), Some(&target));
    account.state_map = map(&s.columns[2].to_string(), "review");
    let plan = plan_import("work", &account).unwrap();
    let columns = match import_gate(&s.board, &plan) {
        ImportGate::Open(columns) => columns,
        other => panic!("{other:?}"),
    };
    let issues = vec![found("2", Some("review")), found("3", None), found("L1", None)];
    let slots = vec![SortKey { key: 10 }, SortKey { key: 11 }, SortKey { key: 12 }];
    let n = import_for_account(&mut s.board, &plan, &columns, Ok(issues), &slots, at(9)).unwrap();
    assert_eq!(n, 2, "the third is on the board already");
    assert_eq!(s.board.issues[1].status_id, s.columns[2]);
    assert_eq!(s.board.issues[2].status_id, s.columns[0]);
    assert_eq!(Issues::list_pending_linear_sync(&s.board).len(), 1, "only the moved card");
    assert_eq!(
        import_for_account(
            &mut s.board,
            &plan,
            &columns,
            Err(LinearError::RateLimited),
            &slots,
            at(9)
        ),
        Err(ImportError::Linear(LinearError::RateLimited))
    );
    let mut gone = plan;
    gone.target_project_id = Uuid::from_u128(3);
    assert_eq!(
        import_for_account(&mut s.board, &gone, &columns, Ok(vec![found("9", None)]), &slots, at(9)),
        Err(ImportError::Board(BoardError::RowNotFound))
    );
}

#[test]
fn issues_without_a_column_become_no_cards() {
    let cards = make_cards(&Vec::new(), &StringMap::new(), &vec![found("1", None)]);
    assert!(cards.is_empty());
}

// --- configuration --------------------------------------------------------------

#[test]
fn redacted_strips_linear_tokens_but_preserves_the_rest() {
    let mut cfg = Config::default();
    cfg.linear.accounts.insert(
        "work".to_string(),
        LinearAccount {
            token: Some("lin_api_secret".to_string()),
            workspace_name: Some("OneOnMe".to_string()),
            team_id: Some("team-123".to_string()),
            state_map: map("status-uuid", "linear-state-uuid"),
            ..Default::default()
        },
    );

    let redacted = cfg.redacted();
    let acct = redacted.linear.accounts.get("work").unwrap();

    assert_eq!(acct.token, None);
    assert_eq!(acct.workspace_name.as_deref(), Some("OneOnMe"));
    assert_eq!(acct.team_id.as_deref(), Some("team-123"));
    assert_eq!(
        acct.state_map.get("status-uuid").map(String::as_str),
        Some("linear-state-uuid")
    );

    assert_eq!(
        cfg.linear.accounts.get("work").unwrap().token.as_deref(),
        Some("lin_api_secret")
    );
}

fn v7(analytics_enabled: Option<bool>) -> ConfigV7 {
    ConfigV7 {
        theme: Json::Str("DARK".to_string()),
        executor_profile: Json::Null,
        disclaimer_acknowledged: true,
        onboarding_acknowledged: true,
        notifications: Json::Null,
        editor: Json::Null,
        github: Json::Null,
        analytics_enabled,
        workspace_dir: Some("/w".to_string()),
        last_app_version: None,
        show_release_notes: true,
        language: Json::Null,
        git_branch_prefix: "x".to_string(),
        showcases: Json::Null,
    }
}

#[test]
fn older_configurations_are_brought_up_to_date() {
    let c = Config::from_v7_config(v7(None));
    assert_eq!(c.config_version, "v8");
    assert_eq!(c.theme, Json::Str("DARK".to_string()));
    assert!(c.analytics_enabled);
    assert!(c.disclaimer_acknowledged);
    assert!(!c.remote_onboarding_acknowledged);
    assert_eq!(c.git_branch_prefix, "x");
    assert_eq!(c.workspace_dir.as_deref(), Some("/w"));
    assert_eq!(c.send_message_shortcut, SendMessageShortcut::ModifierEnter);
    assert!(c.relay_enabled);
    assert_eq!(c.linear.accounts.len(), 0);
    assert!(!Config::from_v7_config(v7(Some(false))).analytics_enabled);
    assert!(Config::from_v7_config(v7(Some(true))).analytics_enabled);
}

#[test]
fn stored_configurations_are_taken_when_current() {
    let mut current = Config::default();
    current.git_branch_prefix = "mine".to_string();
    assert_eq!(Config::from_stored(Some(current), v7(None)).git_branch_prefix, "mine");
    let mut old = Config::default();
    old.config_version = "v7".to_string();
    assert_eq!(Config::from_stored(Some(old), v7(None)).git_branch_prefix, "x");
    assert_eq!(Config::from_stored(None, v7(None)).git_branch_prefix, "x");
    assert_eq!(Config::default().git_branch_prefix, "vk");
}
