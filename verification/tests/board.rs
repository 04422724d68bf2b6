use linear_board::board::import::resolve_import_status;
use linear_board::board::issues::Issues;
use linear_board::board::projects::BoardProjects;
use linear_board::board::pull_requests::{BoardPullRequests, BoardWorkspaces};
use linear_board::board::records::{
    CheckStatus, CreateIssueRequest, CreateProjectRequest, CreateProjectStatusRequest, ImportCard,
    IssuePriority, MergeStatus, ProjectStatus, PullRequestRow, SearchIssuesRequest, SortKey,
    UpdateIssueRequest, UpdateProjectRequest, UpdateProjectStatusRequest, WorkspaceRow,
    LOCAL_ORG_ID, LOCAL_USER_ID,
};
use linear_board::board::statuses::ProjectStatuses;
use linear_board::board::{Board, BoardError};
use linear_board::ids::Uuid;
use linear_board::string_map::StringMap;
use linear_board::time::Timestamp;

fn at(secs: i64) -> Timestamp {
    Timestamp { secs, nanos: 0 }
}

fn key(key: i64) -> SortKey {
    SortKey { key }
}

fn slots(n: usize) -> Vec<SortKey> {
    (0..n).map(|i| key(100 + i as i64)).collect()
}

fn json(text: &str) -> serde_json::Value {
    serde_json::from_str(text).unwrap()
}

fn map(pairs: &[(String, &str)]) -> StringMap<String> {
    let mut m = StringMap::new();
    for (k, v) in pairs {
        m.insert(k.clone(), v.to_string());
    }
    m
}

fn status(sort_order: i32, hidden: bool) -> ProjectStatus {
    ProjectStatus {
        id: Uuid::new_v4(),
        project_id: Uuid::new_v4(),
        name: "col".to_string(),
        color: "#fff".to_string(),
        sort_order,
        hidden,
        created_at: at(0),
    }
}

fn project_request() -> CreateProjectRequest {
    CreateProjectRequest {
        id: None,
        organization_id: Uuid::from_u128(LOCAL_ORG_ID),
        name: "Board".to_string(),
        color: "#abc".to_string(),
    }
}

fn issue_request(project_id: Uuid, status_id: Uuid, title: &str) -> CreateIssueRequest {
    CreateIssueRequest {
        id: None,
        project_id,
        status_id,
        title: title.to_string(),
        description: None,
        priority: None,
        start_date: None,
        target_date: None,
        completed_at: None,
        sort_order: key(0),
        parent_issue_id: None,
        parent_issue_sort_order: None,
        extension_metadata: json("{}"),
    }
}

fn no_change() -> UpdateIssueRequest {
    UpdateIssueRequest {
        status_id: None,
        title: None,
        description: None,
        priority: None,
        start_date: None,
        target_date: None,
        completed_at: None,
        sort_order: None,
        parent_issue_id: None,
        parent_issue_sort_order: None,
        extension_metadata: None,
    }
}

fn search_request(project_id: Uuid) -> SearchIssuesRequest {
    SearchIssuesRequest {
        project_id,
        status_id: None,
        status_ids: None,
        priority: None,
        parent_issue_id: None,
        simple_id: None,
        search: None,
        limit: None,
        offset: None,
    }
}

fn card(linear_id: &str, status_id: Uuid) -> ImportCard {
    ImportCard {
        linear_issue_id: linear_id.to_string(),
        linear_issue_identifier: format!("JM-{linear_id}"),
        linear_url: format!("https://linear.app/x/{linear_id}"),
        title: format!("Imported {linear_id}"),
        linear_state_id: Some("linear-started".to_string()),
        status_id,
    }
}

/// A board with one project; returns the project and its columns.
fn project() -> (Board, Uuid, Vec<Uuid>) {
    let mut board = Board::new();
    let project = BoardProjects::create(&mut board, &project_request(), at(1)).unwrap();
    let columns = ProjectStatuses::list_by_project(&board, project.id)
        .iter()
        .map(|s| s.id)
        .collect();
    (board, project.id, columns)
}

/// A board with one project and one card.
fn project_with_issue() -> (Board, Uuid, Uuid) {
    let (mut board, project_id, columns) = project();
    let issue = Issues::create(
        &mut board,
        &issue_request(project_id, columns[0], "I1"),
        None,
        at(2),
    )
    .unwrap();
    (board, project_id, issue.id)
}

fn link(board: &mut Board, id: Uuid, linear_id: &str) {
    Issues::link_linear(board, id, linear_id, "OOM-1", "https://l/OOM-1", Some("s0"), false)
        .unwrap();
}

fn move_to(board: &mut Board, id: Uuid, status_id: Uuid) {
    let mut req = no_change();
    req.status_id = Some(status_id);
    Issues::update(board, id, &req, at(9)).unwrap();
}

fn pending_ids(board: &Board) -> Vec<Uuid> {
    Issues::list_pending_linear_sync(board)
        .iter()
        .map(|p| p.id)
        .collect()
}

// --- the column of an imported issue ---------------------------------------

#[test]
fn resolve_prefers_scoped_mapped_status() {
    let s0 = status(0, false);
    let s1 = status(1, false);
    let m = map(&[(s1.id.to_string(), "linear-started")]);
    let expected = s1.id;
    let got = resolve_import_status(&[s0, s1], &m, Some("linear-started"));
    assert_eq!(got, Some(expected));
}

#[test]
fn resolve_excludes_cross_project_map_entries() {
    let mine = status(0, false);
    let foreign_id = Uuid::new_v4();
    let m = map(&[(foreign_id.to_string(), "linear-started")]);
    let expected = mine.id;
    let got = resolve_import_status(&[mine], &m, Some("linear-started"));
    assert_eq!(got, Some(expected));
}

#[test]
fn resolve_collision_picks_lowest_sort_order() {
    let leftmost = status(0, false);
    let rightmost = status(5, false);
    let m = map(&[
        (leftmost.id.to_string(), "S"),
        (rightmost.id.to_string(), "S"),
    ]);
    let expected = leftmost.id;
    let got = resolve_import_status(&[rightmost, leftmost], &m, Some("S"));
    assert_eq!(got, Some(expected));
}

#[test]
fn resolve_mapped_hidden_falls_back_to_visible() {
    let hidden_mapped = status(0, true);
    let visible = status(1, false);
    let m = map(&[(hidden_mapped.id.to_string(), "S")]);
    let expected = visible.id;
    let got = resolve_import_status(&[hidden_mapped, visible], &m, Some("S"));
    assert_eq!(got, Some(expected));
}

#[test]
fn resolve_falls_back_to_leftmost_non_hidden() {
    let hidden = status(0, true);
    let first_visible = status(1, false);
    let later = status(2, false);
    let expected = first_visible.id;
    let got = resolve_import_status(
        &[hidden, first_visible, later],
        &StringMap::new(),
        Some("unmapped-state"),
    );
    assert_eq!(got, Some(expected));
}

#[test]
fn resolve_none_when_no_visible_column() {
    let only_hidden = status(0, true);
    assert_eq!(
        resolve_import_status(&[only_hidden], &StringMap::new(), None),
        None
    );
    assert_eq!(
        resolve_import_status(&[], &StringMap::new(), Some("x")),
        None
    );
}

#[test]
fn resolve_breaks_ties_by_creation_then_by_place() {
    let mut a = status(3, false);
    let mut b = status(3, false);
    let c = status(3, false);
    a.created_at = at(5);
    b.created_at = Timestamp { secs: 4, nanos: 9 };
    let (b_id, c_id) = (b.id, c.id);
    assert_eq!(
        resolve_import_status(&[a, b, c], &StringMap::new(), None),
        Some(c_id)
    );
    let d = status(3, false);
    let e = status(3, false);
    let d_id = d.id;
    assert_ne!(b_id, d_id);
    assert_eq!(
        resolve_import_status(&[d, e], &StringMap::new(), None),
        Some(d_id)
    );
}

// --- imports ----------------------------------------------------------------

#[test]
fn import_inserts_dedups_and_stays_out_of_outbound_drain() {
    let mut board = Board::new();
    let project = BoardProjects::create(&mut board, &project_request(), at(1)).unwrap();
    BoardProjects::set_linear_account_key(&mut board, project.id, Some("work".to_string()));
    let statuses = ProjectStatuses::list_by_project(&board, project.id);
    let intake = statuses[0].id;

    let batch = vec![card("A", intake), card("B", intake)];
    let n = Issues::import_from_linear(&mut board, project.id, &batch, &slots(2), at(2)).unwrap();
    assert_eq!(n, 2, "both new issues imported");

    let n2 = Issues::import_from_linear(&mut board, project.id, &batch, &slots(2), at(3)).unwrap();
    assert_eq!(n2, 0, "already-imported issues are skipped");

    let pending = Issues::list_pending_linear_sync(&board);
    assert!(
        pending.is_empty(),
        "imported cards must not enter the outbound drain"
    );

    let links = Issues::list_linear_links(&board, project.id).unwrap();
    assert_eq!(links.len(), 2);
    assert!(links.iter().all(|l| l.linear_sync_pending == 0));
}

#[test]
fn import_numbers_names_and_places_cards() {
    let (mut board, project_id, columns) = project();
    let batch = vec![card("A", columns[1]), card("B", columns[0])];
    Issues::import_from_linear(&mut board, project_id, &batch, &slots(2), at(7)).unwrap();
    let list = Issues::list_by_project(&board, project_id);
    assert_eq!(list.total_count, 2);
    let a = &list.issues[0];
    assert_eq!(a.issue_number, 1);
    assert_eq!(a.simple_id, "VK-1");
    assert_eq!(a.title, "Imported A");
    assert_eq!(a.status_id, columns[1]);
    assert_eq!(a.sort_order, key(100));
    assert_eq!(a.extension_metadata, json("{}"));
    assert_eq!(a.created_at, at(7));
    assert_eq!(list.issues[1].simple_id, "VK-2");
    assert_eq!(list.issues[1].sort_order, key(101));
    let row = &board.issues[0];
    assert_eq!(row.linear_issue_id.as_deref(), Some("A"));
    assert_eq!(row.linear_issue_identifier.as_deref(), Some("JM-A"));
    assert_eq!(row.linear_url.as_deref(), Some("https://linear.app/x/A"));
    assert_eq!(row.linear_state_id.as_deref(), Some("linear-started"));
}

#[test]
fn import_of_a_duplicate_in_one_batch_uses_up_a_number_only() {
    let (mut board, project_id, columns) = project();
    let batch = vec![card("A", columns[0]), card("A", columns[0]), card("B", columns[0])];
    let n = Issues::import_from_linear(&mut board, project_id, &batch, &slots(3), at(2)).unwrap();
    assert_eq!(n, 2);
    let numbers: Vec<i32> = board.issues.iter().map(|i| i.issue_number).collect();
    assert_eq!(numbers, vec![1, 3]);
    let places: Vec<i64> = board.issues.iter().map(|i| i.sort_order.key).collect();
    assert_eq!(places, vec![100, 101]);
}

#[test]
fn import_that_is_stopped_keeps_what_came_before() {
    let (mut board, project_id, columns) = project();
    let nowhere = Uuid::from_u128(77);
    let batch = vec![card("A", columns[0]), card("B", nowhere), card("C", columns[0])];
    let r = Issues::import_from_linear(&mut board, project_id, &batch, &slots(3), at(2));
    assert_eq!(r, Err(BoardError::ForeignKeyViolation));
    assert_eq!(board.issues.len(), 1);
    assert_eq!(board.projects[0].issue_counter, 1);
    let missing = Uuid::from_u128(5);
    assert_eq!(
        Issues::import_from_linear(&mut board, missing, &vec![card("Z", columns[0])], &slots(1), at(2)),
        Err(BoardError::RowNotFound)
    );
    assert_eq!(
        Issues::import_from_linear(&mut board, missing, &Vec::new(), &Vec::new(), at(2)),
        Ok(0)
    );
}

#[test]
fn last_slot_is_the_greatest_of_the_project() {
    let (mut board, project_id, columns) = project();
    assert_eq!(Issues::last_slot(&board, project_id), None);
    for k in [4, -2, 9, 3] {
        let mut req = issue_request(project_id, columns[0], "x");
        req.sort_order = key(k);
        Issues::create(&mut board, &req, None, at(2)).unwrap();
    }
    assert_eq!(Issues::last_slot(&board, project_id), Some(key(9)));
    assert_eq!(Issues::last_slot(&board, Uuid::from_u128(3)), None);
}

// --- pull requests and workspaces -------------------------------------------

fn workspace(issue_id: Option<Uuid>, name: Option<&str>) -> WorkspaceRow {
    WorkspaceRow {
        id: Uuid::new_v4(),
        issue_id,
        name: name.map(str::to_string),
        archived: false,
        created_at: at(3),
        updated_at: at(3),
    }
}

fn pull_request(id: &str, workspace_id: Uuid, url: &str, number: i64) -> PullRequestRow {
    PullRequestRow {
        id: id.to_string(),
        workspace_id: Some(workspace_id),
        pr_url: url.to_string(),
        pr_number: number,
        pr_status: MergeStatus::Open,
        merged_at: None,
        merge_commit_sha: None,
        target_branch_name: "main".to_string(),
        created_at: at(4),
        updated_at: at(4),
        check_status: None,
    }
}

#[test]
fn board_prs_scope_to_issue_linked_workspaces_and_carry_check_status() {
    let (mut board, project_id, issue_id) = project_with_issue();
    let ws = workspace(Some(issue_id), None);
    let ws_id = ws.id;
    board.workspaces.push(ws);
    let mut pr = pull_request("pr-1", ws_id, "https://x/1", 1);
    pr.check_status = Some(CheckStatus::Passing);
    board.pull_requests.push(pr);

    let adhoc = workspace(None, None);
    let adhoc_id = adhoc.id;
    board.workspaces.push(adhoc);
    board.pull_requests.push(pull_request("pr-2", adhoc_id, "https://x/2", 2));

    let (prs, links) = BoardPullRequests::list_by_project(&board, project_id);

    assert_eq!(prs.len(), 1, "only the issue-linked PR is in scope");
    let row = &prs[0];
    assert_eq!(row.id, "pr-1");
    assert_eq!(row.issue_id, issue_id);
    assert_eq!(row.project_id, project_id);
    assert_eq!(row.workspace_id, Some(ws_id));
    assert_eq!(row.status, "open");
    assert_eq!(
        row.check_status,
        Some(CheckStatus::Passing),
        "check status passes through to the fallback row"
    );

    assert_eq!(links.len(), 1);
    assert_eq!(links[0].id, "pr-1");
    assert_eq!(links[0].pull_request_id, "pr-1");
    assert_eq!(links[0].issue_id, issue_id);
}

#[test]
fn board_prs_collapse_unknown_status_to_closed() {
    let (mut board, project_id, issue_id) = project_with_issue();
    let ws = workspace(Some(issue_id), None);
    let ws_id = ws.id;
    board.workspaces.push(ws);
    let mut pr = pull_request("pr-1", ws_id, "https://x/1", 1);
    pr.pr_status = MergeStatus::Unknown;
    board.pull_requests.push(pr);

    let (prs, _links) = BoardPullRequests::list_by_project(&board, project_id);
    assert_eq!(prs.len(), 1);
    assert_eq!(
        prs[0].status, "closed",
        "Unknown must collapse to closed, never leak as a green open PR"
    );
}

#[test]
fn board_prs_show_merged_and_closed() {
    let (mut board, project_id, issue_id) = project_with_issue();
    let ws = workspace(Some(issue_id), None);
    let ws_id = ws.id;
    board.workspaces.push(ws);
    for (id, status) in [("a", MergeStatus::Merged), ("b", MergeStatus::Closed)] {
        let mut pr = pull_request(id, ws_id, "https://x/1", 1);
        pr.pr_status = status;
        board.pull_requests.push(pr);
    }
    let (prs, links) = BoardPullRequests::list_by_project(&board, project_id);
    let shown: Vec<&str> = prs.iter().map(|p| p.status).collect();
    assert_eq!(shown, vec!["merged", "closed"]);
    assert_eq!(links.len(), 2);
    let (none, _) = BoardPullRequests::list_by_project(&board, Uuid::from_u128(8));
    assert!(none.is_empty());
}

#[test]
fn board_workspaces_scope_to_issue_and_collapse_local_ids() {
    let (mut board, project_id, issue_id) = project_with_issue();
    let ws = workspace(Some(issue_id), Some("W1"));
    let ws_id = ws.id;
    board.workspaces.push(ws);
    board.workspaces.push(workspace(None, None));

    let rows = BoardWorkspaces::list_by_project(&board, project_id);

    assert_eq!(rows.len(), 1, "only the issue-linked workspace is in scope");
    let row = &rows[0];
    assert_eq!(row.id, ws_id);
    assert_eq!(row.issue_id, issue_id);
    assert_eq!(row.project_id, project_id);
    assert_eq!(row.name.as_deref(), Some("W1"));
    assert!(!row.archived);
    assert_eq!(
        row.local_workspace_id, ws_id,
        "local_workspace_id must equal id so the sidebar-stream merge (branch/agents) resolves"
    );
    assert_eq!(
        row.owner_user_id,
        Uuid::from_u128(LOCAL_USER_ID),
        "owner is the local sentinel"
    );
    assert_eq!((row.files_changed, row.lines_added, row.lines_removed), (None, None, None));
}

// --- boards -----------------------------------------------------------------

#[test]
fn new_board_comes_last_with_default_columns() {
    let mut board = Board::new();
    let mut req = project_request();
    req.organization_id = Uuid::from_u128(999);
    let first = BoardProjects::create(&mut board, &req, at(1)).unwrap();
    assert_eq!(first.organization_id, Uuid::from_u128(LOCAL_ORG_ID));
    assert_eq!(first.sort_order, 0);
    let second = BoardProjects::create(&mut board, &req, at(2)).unwrap();
    assert_eq!(second.sort_order, 1);
    let columns = ProjectStatuses::list_by_project(&board, second.id);
    let shown: Vec<(&str, &str, i32, bool)> = columns
        .iter()
        .map(|s| (s.name.as_str(), s.color.as_str(), s.sort_order, s.hidden))
        .collect();
    assert_eq!(
        shown,
        vec![
            ("Todo", "220 9% 46%", 0, false),
            ("In Progress", "38 92% 50%", 1, false),
            ("In Review", "221 83% 53%", 2, false),
            ("Done", "142 71% 45%", 3, false),
            ("Cancelled", "0 84% 60%", 4, false),
        ]
    );
    let listed: Vec<Uuid> = BoardProjects::list_by_org(&board, Uuid::from_u128(LOCAL_ORG_ID))
        .iter()
        .map(|p| p.id)
        .collect();
    assert_eq!(listed, vec![first.id, second.id]);
    assert!(BoardProjects::list_by_org(&board, Uuid::from_u128(999)).is_empty());
}

#[test]
fn new_board_is_refused_as_a_whole() {
    let mut board = Board::new();
    let ids: Vec<Uuid> = (10..15).map(Uuid::from_u128).collect();
    let id = Uuid::from_u128(50);
    BoardProjects::create_with_ids(&mut board, &project_request(), id, &ids, at(1)).unwrap();
    assert_eq!(
        BoardProjects::create_with_ids(&mut board, &project_request(), id, &ids, at(1)),
        Err(BoardError::UniqueViolation)
    );
    let other = Uuid::from_u128(51);
    let clash: Vec<Uuid> = [20, 21, 12, 22, 23].into_iter().map(Uuid::from_u128).collect();
    assert_eq!(
        BoardProjects::create_with_ids(&mut board, &project_request(), other, &clash, at(1)),
        Err(BoardError::UniqueViolation)
    );
    assert_eq!(board.projects.len(), 1);
    assert_eq!(board.statuses.len(), 5);
    board.projects[0].sort_order = i32::MAX;
    let fresh: Vec<Uuid> = (30..35).map(Uuid::from_u128).collect();
    assert_eq!(
        BoardProjects::create_with_ids(&mut board, &project_request(), other, &fresh, at(1)),
        Err(BoardError::Overflow)
    );
}

#[test]
fn boards_change_alone_and_in_bulk() {
    let mut board = Board::new();
    let a = BoardProjects::create(&mut board, &project_request(), at(1)).unwrap().id;
    let b = BoardProjects::create(&mut board, &project_request(), at(1)).unwrap().id;
    let rename = UpdateProjectRequest {
        name: Some("Renamed".to_string()),
        color: None,
        sort_order: None,
    };
    let got = BoardProjects::update(&mut board, a, &rename, at(5)).unwrap();
    assert_eq!((got.name.as_str(), got.color.as_str()), ("Renamed", "#abc"));
    assert_eq!((got.created_at, got.updated_at), (at(1), at(5)));
    let place = |n: i32| UpdateProjectRequest { name: None, color: None, sort_order: Some(n) };
    BoardProjects::bulk_update(&mut board, &vec![(a, place(7)), (b, place(3))], at(6)).unwrap();
    let order: Vec<Uuid> = BoardProjects::list_by_org(&board, Uuid::from_u128(LOCAL_ORG_ID))
        .iter()
        .map(|p| p.id)
        .collect();
    assert_eq!(order, vec![b, a]);
    let missing = Uuid::from_u128(4);
    assert_eq!(
        BoardProjects::bulk_update(&mut board, &vec![(a, place(1)), (missing, place(2))], at(7)),
        Err(BoardError::RowNotFound)
    );
    assert_eq!(BoardProjects::get(&board, a).unwrap().sort_order, 7, "rolled back");
    assert_eq!(BoardProjects::get(&board, missing), None);
}

#[test]
fn bindings_are_read_back() {
    let (mut board, project_id, _) = project();
    assert_eq!(BoardProjects::linear_account_key(&board, project_id), None);
    BoardProjects::set_linear_account_key(&mut board, project_id, Some("work".to_string()));
    BoardProjects::set_claude_account_variant(&mut board, project_id, Some("WORK".to_string()));
    assert_eq!(
        BoardProjects::linear_account_key(&board, project_id).as_deref(),
        Some("work")
    );
    assert_eq!(
        BoardProjects::claude_account_variant(&board, project_id).as_deref(),
        Some("WORK")
    );
    let missing = Uuid::from_u128(4);
    BoardProjects::set_linear_account_key(&mut board, missing, Some("x".to_string()));
    assert_eq!(BoardProjects::linear_account_key(&board, missing), None);
    assert_eq!(BoardProjects::claude_account_variant(&board, missing), None);
}

// --- columns ----------------------------------------------------------------

#[test]
fn seeding_happens_once() {
    let mut board = Board::new();
    let project_id = Uuid::from_u128(6);
    ProjectStatuses::seed_defaults(&mut board, project_id, at(1)).unwrap();
    ProjectStatuses::seed_defaults(&mut board, project_id, at(2)).unwrap();
    assert_eq!(board.statuses.len(), 5);
    let ids: Vec<Uuid> = [1, 2, 1, 3, 4].into_iter().map(Uuid::from_u128).collect();
    let other = Uuid::from_u128(7);
    assert_eq!(
        ProjectStatuses::seed_with_ids(&mut board, other, &ids, at(3)),
        Err(BoardError::UniqueViolation)
    );
    assert_eq!(ProjectStatuses::list_by_project(&board, other).len(), 2);
}

#[test]
fn columns_are_created_changed_and_removed() {
    let (mut board, project_id, columns) = project();
    let id = Uuid::from_u128(600);
    let req = CreateProjectStatusRequest {
        id: Some(id),
        project_id,
        name: "Blocked".to_string(),
        color: "red".to_string(),
        sort_order: 1,
        hidden: true,
    };
    let made = ProjectStatuses::create(&mut board, &req, at(4)).unwrap();
    assert_eq!(made.id, id);
    assert!(made.hidden);
    assert_eq!(
        ProjectStatuses::create(&mut board, &req, at(4)),
        Err(BoardError::UniqueViolation)
    );
    let names: Vec<String> = ProjectStatuses::list_by_project(&board, project_id)
        .iter()
        .map(|s| s.name.clone())
        .collect();
    assert_eq!(
        names,
        vec!["Todo", "In Progress", "Blocked", "In Review", "Done", "Cancelled"],
        "equal positions keep their order"
    );
    let show = UpdateProjectStatusRequest {
        name: None,
        color: Some("blue".to_string()),
        sort_order: Some(-1),
        hidden: Some(false),
    };
    let got = ProjectStatuses::update(&mut board, id, &show).unwrap();
    assert_eq!(
        (got.name.as_str(), got.color.as_str(), got.sort_order, got.hidden),
        ("Blocked", "blue", -1, false)
    );
    assert_eq!(
        ProjectStatuses::bulk_update(
            &mut board,
            &vec![
                (columns[0], UpdateProjectStatusRequest {
                    name: Some("X".to_string()),
                    color: None,
                    sort_order: None,
                    hidden: None,
                }),
                (Uuid::from_u128(601), UpdateProjectStatusRequest {
                    name: None,
                    color: None,
                    sort_order: None,
                    hidden: None,
                }),
            ]
        ),
        Err(BoardError::RowNotFound)
    );
    assert!(board.statuses.iter().all(|s| s.name != "X"), "rolled back");
    Issues::create(&mut board, &issue_request(project_id, id, "I"), None, at(5)).unwrap();
    assert_eq!(
        ProjectStatuses::delete(&mut board, id),
        Err(BoardError::ForeignKeyViolation)
    );
    assert_eq!(ProjectStatuses::delete(&mut board, columns[4]), Ok(1));
    assert_eq!(ProjectStatuses::delete(&mut board, columns[4]), Ok(0));
}

// --- cards ------------------------------------------------------------------

#[test]
fn cards_are_numbered_and_keep_their_metadata() {
    let (mut board, project_id, columns) = project();
    let mut req = issue_request(project_id, columns[0], "First");
    req.extension_metadata = json(r#"{"b": [1, null, "x"], "a": {"k": true}}"#);
    req.priority = Some(IssuePriority::High);
    let user = Uuid::from_u128(LOCAL_USER_ID);
    let first = Issues::create(&mut board, &req, Some(user), at(2)).unwrap();
    assert_eq!(first.simple_id, "VK-1");
    assert_eq!(first.issue_number, 1);
    assert_eq!(first.creator_user_id, Some(user));
    assert_eq!(first.extension_metadata, req.extension_metadata);
    assert_eq!(
        board.issues[0].extension_metadata,
        r#"{"a":{"k":true},"b":[1,null,"x"]}"#
    );
    let second = Issues::create(&mut board, &req, None, at(3)).unwrap();
    assert_eq!(second.simple_id, "VK-2");
    assert_ne!(first.id, second.id);
    assert_eq!(Issues::get(&board, first.id).unwrap(), first);
    assert_eq!(Issues::get(&board, Uuid::from_u128(3)), None);
    board.issues[0].extension_metadata = "not json".to_string();
    assert_eq!(
        Issues::get(&board, first.id).unwrap().extension_metadata,
        json("{}")
    );
}

#[test]
fn identifiers_are_drawn_where_none_is_given() {
    let drawn = |id: Uuid| (id.bits >> 76) & 15 == 4 && (id.bits >> 62) & 3 == 2;
    let (mut board, project_id, columns) = project();
    assert!(drawn(project_id));
    assert!(columns.iter().all(|c| drawn(*c)));
    let req = issue_request(project_id, columns[0], "x");
    assert!(drawn(Issues::create(&mut board, &req, None, at(2)).unwrap().id));
    let column = CreateProjectStatusRequest {
        id: None,
        project_id,
        name: "n".to_string(),
        color: "c".to_string(),
        sort_order: 9,
        hidden: false,
    };
    assert!(drawn(ProjectStatuses::create(&mut board, &column, at(2)).unwrap().id));
    let batch = vec![card("A", columns[0]), card("B", columns[0])];
    Issues::import_from_linear(&mut board, project_id, &batch, &slots(2), at(3)).unwrap();
    assert!(board.issues.iter().all(|r| drawn(r.id)));
}

#[test]
fn cards_that_cannot_be_created_use_up_no_number() {
    let (mut board, project_id, columns) = project();
    let id = Uuid::from_u128(70);
    let mut req = issue_request(project_id, columns[0], "x");
    req.id = Some(id);
    Issues::create(&mut board, &req, None, at(2)).unwrap();
    assert_eq!(
        Issues::create(&mut board, &req, None, at(2)),
        Err(BoardError::UniqueViolation)
    );
    req.id = Some(Uuid::from_u128(71));
    req.status_id = Uuid::from_u128(72);
    assert_eq!(
        Issues::create(&mut board, &req, None, at(2)),
        Err(BoardError::ForeignKeyViolation)
    );
    req.status_id = columns[0];
    req.project_id = Uuid::from_u128(73);
    assert_eq!(
        Issues::create(&mut board, &req, None, at(2)),
        Err(BoardError::RowNotFound)
    );
    assert_eq!(board.projects[0].issue_counter, 1);
    board.projects[0].issue_counter = 0;
    req.project_id = project_id;
    assert_eq!(
        Issues::create(&mut board, &req, None, at(2)),
        Err(BoardError::UniqueViolation),
        "the number is taken"
    );
    board.projects[0].issue_counter = i64::MAX;
    assert_eq!(
        Issues::create(&mut board, &req, None, at(2)),
        Err(BoardError::Overflow)
    );
    board.projects[0].issue_counter = 1;
    board.organizations.clear();
    assert_eq!(
        Issues::create(&mut board, &req, None, at(2)),
        Err(BoardError::RowNotFound)
    );
}

#[test]
fn card_numbers_are_cut_to_32_bits() {
    let (mut board, project_id, columns) = project();
    board.projects[0].issue_counter = 0x1_0000_0000 + 4;
    let issue =
        Issues::create(&mut board, &issue_request(project_id, columns[0], "x"), None, at(2))
            .unwrap();
    assert_eq!(issue.issue_number, 5);
    board.projects[0].issue_counter = 0x7fff_ffff;
    let issue =
        Issues::create(&mut board, &issue_request(project_id, columns[0], "x"), None, at(2))
            .unwrap();
    assert_eq!(issue.simple_id, "VK--2147483648");
}

#[test]
fn list_is_ordered_by_place_then_creation() {
    let (mut board, project_id, columns) = project();
    for (title, place, secs) in [("c", 5, 1), ("b", 1, 9), ("a", 1, 3), ("d", 5, 1), ("z", -4, 8)] {
        let mut req = issue_request(project_id, columns[0], title);
        req.sort_order = key(place);
        Issues::create(&mut board, &req, None, at(secs)).unwrap();
    }
    let list = Issues::list_by_project(&board, project_id);
    let titles: Vec<&str> = list.issues.iter().map(|i| i.title.as_str()).collect();
    assert_eq!(titles, vec!["z", "a", "b", "c", "d"]);
    assert_eq!((list.total_count, list.limit, list.offset), (5, 5, 0));
}

#[test]
fn change_overwrites_what_is_given_and_clears_on_demand() {
    let (mut board, project_id, columns) = project();
    let mut req = issue_request(project_id, columns[0], "Title");
    req.description = Some("d".to_string());
    req.target_date = Some(at(50));
    let id = Issues::create(&mut board, &req, None, at(2)).unwrap().id;
    let mut change = no_change();
    change.title = Some("New".to_string());
    change.description = Some(None);
    change.start_date = Some(Some(at(40)));
    change.priority = Some(Some(IssuePriority::Low));
    change.extension_metadata = Some(json(r#"{"n": 7}"#));
    let got = Issues::update(&mut board, id, &change, at(8)).unwrap();
    assert_eq!(got.title, "New");
    assert_eq!(got.description, None);
    assert_eq!(got.start_date, Some(at(40)));
    assert_eq!(got.target_date, Some(at(50)));
    assert_eq!(got.priority, Some(IssuePriority::Low));
    assert_eq!(got.extension_metadata, json(r#"{"n": 7}"#));
    assert_eq!((got.created_at, got.updated_at), (at(2), at(8)));
    assert_eq!(got.status_id, columns[0]);
    let mut bad = no_change();
    bad.status_id = Some(Uuid::from_u128(1234));
    assert_eq!(
        Issues::update(&mut board, id, &bad, at(9)),
        Err(BoardError::ForeignKeyViolation)
    );
    assert_eq!(
        Issues::update(&mut board, Uuid::from_u128(1), &no_change(), at(9)),
        Err(BoardError::RowNotFound)
    );
    assert_eq!(Issues::delete(&mut board, id), 1);
    assert_eq!(Issues::delete(&mut board, id), 0);
}

#[test]
fn bulk_change_is_all_or_nothing() {
    let (mut board, project_id, columns) = project();
    let a = Issues::create(&mut board, &issue_request(project_id, columns[0], "a"), None, at(2))
        .unwrap()
        .id;
    let b = Issues::create(&mut board, &issue_request(project_id, columns[0], "b"), None, at(3))
        .unwrap()
        .id;
    let place = |n: i64| {
        let mut r = no_change();
        r.sort_order = Some(key(n));
        r
    };
    Issues::bulk_update(&mut board, &vec![(a, place(2)), (b, place(1))], at(4)).unwrap();
    let titles: Vec<String> = Issues::list_by_project(&board, project_id)
        .issues
        .iter()
        .map(|i| i.title.clone())
        .collect();
    assert_eq!(titles, vec!["b", "a"]);
    let before: Vec<i64> = board.issues.iter().map(|i| i.sort_order.key).collect();
    assert_eq!(
        Issues::bulk_update(
            &mut board,
            &vec![(a, place(50)), (Uuid::from_u128(1), place(1)), (b, place(60))],
            at(5)
        ),
        Err(BoardError::RowNotFound)
    );
    let after: Vec<i64> = board.issues.iter().map(|i| i.sort_order.key).collect();
    assert_eq!(before, after);
    assert_eq!(Issues::bulk_update(&mut board, &Vec::new(), at(5)), Ok(()));
}

#[test]
fn search_filters_and_pages() {
    let (mut board, project_id, columns) = project();
    let mut make = |title: &str, desc: Option<&str>, column: Uuid, p: Option<IssuePriority>, n: i64| {
        let mut req = issue_request(project_id, column, title);
        req.description = desc.map(str::to_string);
        req.priority = p;
        req.sort_order = key(n);
        Issues::create(&mut board, &req, None, at(2)).unwrap().id
    };
    let parent = make("Login page", Some("the FORM"), columns[0], None, 1);
    make("Logout", None, columns[1], Some(IssuePriority::Urgent), 2);
    make("Étude", Some("login flow"), columns[1], None, 3);
    let titles = |req: &SearchIssuesRequest, board: &Board| -> Vec<String> {
        Issues::search(board, req).issues.iter().map(|i| i.title.clone()).collect()
    };
    let mut req = search_request(project_id);
    assert_eq!(titles(&req, &board).len(), 3);
    req.search = Some("LOGIN".to_string());
    assert_eq!(titles(&req, &board), vec!["Login page", "Étude"]);
    req.search = Some("éTUDE LOGIN".to_string());
    assert_eq!(titles(&req, &board), vec!["Étude"], "the title comes before the description");
    req.search = Some("form".to_string());
    assert_eq!(titles(&req, &board), vec!["Login page"]);
    req.search = None;
    req.status_id = Some(columns[1]);
    assert_eq!(titles(&req, &board), vec!["Logout", "Étude"]);
    req.priority = Some(IssuePriority::Urgent);
    assert_eq!(titles(&req, &board), vec!["Logout"]);
    req.priority = None;
    req.status_id = None;
    req.status_ids = Some(vec![columns[0], columns[2]]);
    assert_eq!(titles(&req, &board), vec!["Login page"]);
    req.status_ids = None;
    req.simple_id = Some("VK-2".to_string());
    assert_eq!(titles(&req, &board), vec!["Logout"]);
    req.simple_id = None;
    req.parent_issue_id = Some(parent);
    assert!(titles(&req, &board).is_empty());
    req.parent_issue_id = None;
    req.limit = Some(1);
    req.offset = Some(1);
    let page = Issues::search(&board, &req);
    assert_eq!(page.issues.len(), 1);
    assert_eq!(page.issues[0].title, "Logout");
    assert_eq!((page.total_count, page.limit, page.offset), (3, 1, 1));
    req.limit = Some(-5);
    req.offset = Some(-1);
    let none = Issues::search(&board, &req);
    assert!(none.issues.is_empty());
    assert_eq!((none.total_count, none.limit, none.offset), (3, 0, 0));
    req.limit = None;
    req.offset = Some(9);
    let past = Issues::search(&board, &req);
    assert!(past.issues.is_empty());
    assert_eq!((past.total_count, past.limit, past.offset), (3, 3, 9));
}

// --- marks and links --------------------------------------------------------

#[test]
fn only_a_move_of_a_linked_card_is_marked() {
    let (mut board, project_id, columns) = project();
    let id = Issues::create(&mut board, &issue_request(project_id, columns[0], "a"), None, at(2))
        .unwrap()
        .id;
    move_to(&mut board, id, columns[1]);
    assert!(pending_ids(&board).is_empty(), "not linked");
    link(&mut board, id, "L1");
    move_to(&mut board, id, columns[1]);
    let mut rename = no_change();
    rename.title = Some("b".to_string());
    Issues::update(&mut board, id, &rename, at(3)).unwrap();
    assert!(pending_ids(&board).is_empty(), "not moved");
    let mut drag = no_change();
    drag.status_id = Some(columns[2]);
    Issues::bulk_update(&mut board, &vec![(id, drag)], at(3)).unwrap();
    let pending = Issues::list_pending_linear_sync(&board);
    assert_eq!(pending.len(), 1);
    assert_eq!(pending[0].id, id);
    assert_eq!(pending[0].status_id, columns[2]);
    assert_eq!(pending[0].linear_issue_id, "L1");
    assert_eq!(pending[0].linear_account_key, None);
    let links = Issues::list_linear_links(&board, project_id).unwrap();
    assert_eq!(links[0].linear_sync_pending, 1);
}

#[test]
fn a_card_that_moved_on_keeps_its_mark() {
    let (mut board, project_id, columns) = project();
    let id = Issues::create(&mut board, &issue_request(project_id, columns[0], "a"), None, at(2))
        .unwrap()
        .id;
    link(&mut board, id, "L1");
    move_to(&mut board, id, columns[1]);
    move_to(&mut board, id, columns[2]);
    Issues::mark_linear_synced(&mut board, id, columns[1], "state-1");
    assert_eq!(pending_ids(&board), vec![id]);
    assert_eq!(board.issues[0].linear_state_id.as_deref(), Some("s0"));
    Issues::clear_linear_pending(&mut board, id, columns[1]);
    assert_eq!(pending_ids(&board), vec![id]);
    Issues::mark_linear_synced(&mut board, id, columns[2], "state-2");
    assert!(pending_ids(&board).is_empty());
    assert_eq!(board.issues[0].linear_state_id.as_deref(), Some("state-2"));
    move_to(&mut board, id, columns[0]);
    Issues::clear_linear_pending(&mut board, id, columns[0]);
    assert!(pending_ids(&board).is_empty());
    assert_eq!(board.issues[0].linear_state_id.as_deref(), Some("state-2"));
}

#[test]
fn an_issue_is_linked_to_one_card_only() {
    let (mut board, project_id, columns) = project();
    let a = Issues::create(&mut board, &issue_request(project_id, columns[0], "a"), None, at(2))
        .unwrap()
        .id;
    let b = Issues::create(&mut board, &issue_request(project_id, columns[0], "b"), None, at(2))
        .unwrap()
        .id;
    link(&mut board, a, "L1");
    link(&mut board, a, "L1");
    assert_eq!(
        Issues::link_linear(&mut board, b, "L1", "OOM-1", "u", None, true),
        Err(BoardError::UniqueViolation)
    );
    assert_eq!(board.issues[1].linear_issue_id, None);
    Issues::unlink_linear(&mut board, a);
    let row = &board.issues[0];
    assert_eq!(row.linear_issue_id, None);
    assert_eq!(row.linear_issue_identifier, None);
    assert_eq!(row.linear_url, None);
    assert_eq!(row.linear_state_id, None);
    assert!(!row.linear_sync_pending);
    assert!(Issues::list_linear_links(&board, project_id).unwrap().is_empty());
    Issues::link_linear(&mut board, b, "L1", "OOM-1", "u", None, true).unwrap();
    assert_eq!(pending_ids(&board), vec![b]);
    assert_eq!(
        Issues::link_linear(&mut board, Uuid::from_u128(2), "L9", "x", "y", None, true),
        Ok(())
    );
}

#[test]
fn a_link_without_its_badge_is_an_error() {
    let (mut board, project_id, issue_id) = project_with_issue();
    link(&mut board, issue_id, "L1");
    board.issues[0].linear_url = None;
    assert_eq!(
        Issues::list_linear_links(&board, project_id),
        Err(BoardError::MissingValue)
    );
}
