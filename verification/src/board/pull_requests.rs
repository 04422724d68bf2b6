//! Pull requests and workspaces, as the cards that they belong to show them.
use vstd::prelude::*;

use crate::board::records::{
    BoardPullRequestIssueRow, BoardPullRequestIssueRowModel, BoardPullRequestRow,
    BoardPullRequestRowModel, BoardWorkspaceRow, BoardWorkspaceRowModel, MergeStatus,
    PullRequestRow, PullRequestRowModel, WorkspaceRow, WorkspaceRowModel, LOCAL_USER_ID,
};
use crate::board::{Board, BoardModel};
use crate::ids::Uuid;
use crate::lists;
use crate::text;

verus! {

/// The reading of pull requests.
pub struct BoardPullRequests;

/// The reading of workspaces.
pub struct BoardWorkspaces;

/// The card that a workspace belongs to, by its position, where it is a card of
/// a board.
pub open spec fn card_of_workspace(
    b: BoardModel,
    project_id: Uuid,
    w: WorkspaceRowModel,
) -> Option<int> {
    match w.issue_id {
        Some(id) => match b.issue_at(id) {
            Some(i) => if b.issues[i].project_id == project_id {
                Some(i)
            } else {
                None
            },
            None => None,
        },
        None => None,
    }
}

/// The card that a pull request belongs to, through its workspace.
pub open spec fn card_of_pull_request(
    b: BoardModel,
    project_id: Uuid,
    pr: PullRequestRowModel,
) -> Option<int> {
    match pr.workspace_id {
        Some(id) => match b.workspace_at(id) {
            Some(w) => card_of_workspace(b, project_id, b.workspaces[w]),
            None => None,
        },
        None => None,
    }
}

/// The status of a pull request as a card shows it: what is not known counts as
/// closed, never as open.
pub open spec fn shown_status(s: MergeStatus) -> Seq<char> {
    match s {
        MergeStatus::Open => "open"@,
        MergeStatus::Merged => "merged"@,
        MergeStatus::Closed => "closed"@,
        MergeStatus::Unknown => "closed"@,
    }
}

/// A pull request with its card.
pub open spec fn shown_pull_request(
    b: BoardModel,
    project_id: Uuid,
    pr: PullRequestRowModel,
) -> BoardPullRequestRowModel {
    BoardPullRequestRowModel {
        id: pr.id,
        url: pr.pr_url,
        number: pr.pr_number,
        status: shown_status(pr.pr_status),
        merged_at: pr.merged_at,
        merge_commit_sha: pr.merge_commit_sha,
        target_branch_name: pr.target_branch_name,
        project_id,
        issue_id: b.issues[card_of_pull_request(b, project_id, pr)->0].id,
        workspace_id: pr.workspace_id,
        created_at: pr.created_at,
        updated_at: pr.updated_at,
        check_status: pr.check_status,
    }
}

/// The join of a pull request and its card.
pub open spec fn pull_request_link(
    b: BoardModel,
    project_id: Uuid,
    pr: PullRequestRowModel,
) -> BoardPullRequestIssueRowModel {
    BoardPullRequestIssueRowModel {
        id: pr.id,
        pull_request_id: pr.id,
        issue_id: b.issues[card_of_pull_request(b, project_id, pr)->0].id,
    }
}

/// The pull requests that belong to cards of a board.
pub open spec fn pull_requests_on(b: BoardModel, project_id: Uuid) -> Seq<PullRequestRowModel> {
    b.pull_requests.filter(
        |pr: PullRequestRowModel| card_of_pull_request(b, project_id, pr) is Some,
    )
}

/// A workspace with its card.
pub open spec fn shown_workspace(
    b: BoardModel,
    project_id: Uuid,
    w: WorkspaceRowModel,
) -> BoardWorkspaceRowModel {
    BoardWorkspaceRowModel {
        id: w.id,
        project_id,
        owner_user_id: Uuid { bits: LOCAL_USER_ID },
        issue_id: b.issues[card_of_workspace(b, project_id, w)->0].id,
        local_workspace_id: w.id,
        name: w.name,
        archived: w.archived,
        files_changed: None,
        lines_added: None,
        lines_removed: None,
        created_at: w.created_at,
        updated_at: w.updated_at,
    }
}

/// The workspaces that belong to cards of a board.
pub open spec fn workspaces_on(b: BoardModel, project_id: Uuid) -> Seq<WorkspaceRowModel> {
    b.workspaces.filter(|w: WorkspaceRowModel| card_of_workspace(b, project_id, w) is Some)
}

/// Only a pull request that is open is shown as open.
pub proof fn law_only_open_is_shown_as_open(s: MergeStatus)
    ensures
        shown_status(s) == "open"@ <==> s == MergeStatus::Open,
{
    reveal_strlit("open");
    reveal_strlit("merged");
    reveal_strlit("closed");
    assert("open"@[0] == 'o');
    assert("merged"@[0] == 'm');
    assert("closed"@[0] == 'c');
}

/// Finds the card that a workspace belongs to.
fn find_card(board: &Board, project_id: Uuid, w: &WorkspaceRow) -> (r: Option<usize>)
    ensures
        match r {
            Some(i) => i < board.issues@.len() && card_of_workspace(board@, project_id, w@) == Some(
                i as int,
            ),
            None => card_of_workspace(board@, project_id, w@) is None,
        },
{
    let id = match w.issue_id {
        Some(id) => id,
        None => return None,
    };
    match board.find_issue(id) {
        Some(i) => {
            assert(board@.issues[i as int] == board.issues@[i as int]@);
            if board.issues[i].project_id == project_id {
                Some(i)
            } else {
                None
            }
        },
        None => None,
    }
}

/// Finds the card that a pull request belongs to.
fn find_pull_request_card(board: &Board, project_id: Uuid, pr: &PullRequestRow) -> (r: Option<
    usize,
>)
    ensures
        match r {
            Some(i) => i < board.issues@.len() && card_of_pull_request(board@, project_id, pr@)
                == Some(i as int),
            None => card_of_pull_request(board@, project_id, pr@) is None,
        },
{
    let id = match pr.workspace_id {
        Some(id) => id,
        None => return None,
    };
    match board.find_workspace(id) {
        Some(w) => {
            assert(board@.workspaces[w as int] == board.workspaces@[w as int]@);
            find_card(board, project_id, &board.workspaces[w])
        },
        None => None,
    }
}

fn status_text(s: MergeStatus) -> (r: &'static str)
    ensures
        r@ == shown_status(s),
{
    match s {
        MergeStatus::Open => "open",
        MergeStatus::Merged => "merged",
        MergeStatus::Closed => "closed",
        MergeStatus::Unknown => "closed",
    }
}

impl BoardPullRequests {
    /// The pull requests whose workspaces belong to cards of a board, and the
    /// joins with those cards.
    pub fn list_by_project(board: &Board, project_id: Uuid) -> (r: (
        Vec<BoardPullRequestRow>,
        Vec<BoardPullRequestIssueRow>,
    ))
        ensures
            r.0@.map_values(|x: BoardPullRequestRow| x@) == pull_requests_on(
                board@,
                project_id,
            ).map_values(|pr: PullRequestRowModel| shown_pull_request(board@, project_id, pr)),
            r.1@.map_values(|x: BoardPullRequestIssueRow| x@) == pull_requests_on(
                board@,
                project_id,
            ).map_values(|pr: PullRequestRowModel| pull_request_link(board@, project_id, pr)),
    {
        let ghost b = board@;
        let ghost keep = |pr: PullRequestRowModel| card_of_pull_request(b, project_id, pr) is Some;
        let ghost show = |pr: PullRequestRowModel| shown_pull_request(b, project_id, pr);
        let ghost link = |pr: PullRequestRowModel| pull_request_link(b, project_id, pr);
        let ghost all = b.pull_requests;
        let mut prs: Vec<BoardPullRequestRow> = Vec::new();
        let mut links: Vec<BoardPullRequestIssueRow> = Vec::new();
        proof {
            lists::lemma_filter_start(all, keep);
            assert(prs@.map_values(|x: BoardPullRequestRow| x@) =~= all.take(0).filter(
                keep,
            ).map_values(show));
            assert(links@.map_values(|x: BoardPullRequestIssueRow| x@) =~= all.take(0).filter(
                keep,
            ).map_values(link));
        }
        for i in 0..board.pull_requests.len()
            invariant
                b == board@,
                all == b.pull_requests,
                keep == (|pr: PullRequestRowModel|
                    card_of_pull_request(b, project_id, pr) is Some),
                show == (|pr: PullRequestRowModel| shown_pull_request(b, project_id, pr)),
                link == (|pr: PullRequestRowModel| pull_request_link(b, project_id, pr)),
                prs@.map_values(|x: BoardPullRequestRow| x@) == all.take(i as int).filter(
                    keep,
                ).map_values(show),
                links@.map_values(|x: BoardPullRequestIssueRow| x@) == all.take(i as int).filter(
                    keep,
                ).map_values(link),
        {
            let pr = &board.pull_requests[i];
            let ghost before = all.take(i as int).filter(keep);
            proof {
                lists::lemma_filter_next(all, keep, i as int);
                assert(all[i as int] == pr@);
            }
            if let Some(c) = find_pull_request_card(board, project_id, pr) {
                assert(b.issues[c as int] == board.issues@[c as int]@);
                let issue_id = board.issues[c].id;
                let ghost shown = prs@.map_values(|x: BoardPullRequestRow| x@);
                let ghost joined = links@.map_values(|x: BoardPullRequestIssueRow| x@);
                links.push(
                    BoardPullRequestIssueRow {
                        id: pr.id.clone(),
                        pull_request_id: pr.id.clone(),
                        issue_id,
                    },
                );
                prs.push(
                    BoardPullRequestRow {
                        id: pr.id.clone(),
                        url: pr.pr_url.clone(),
                        number: pr.pr_number,
                        status: status_text(pr.pr_status),
                        merged_at: pr.merged_at,
                        merge_commit_sha: text::copy_option(&pr.merge_commit_sha),
                        target_branch_name: pr.target_branch_name.clone(),
                        project_id,
                        issue_id,
                        workspace_id: pr.workspace_id,
                        created_at: pr.created_at,
                        updated_at: pr.updated_at,
                        check_status: pr.check_status,
                    },
                );
                proof {
                    assert(prs@.map_values(|x: BoardPullRequestRow| x@) =~= shown.push(
                        show(pr@),
                    ));
                    assert(links@.map_values(|x: BoardPullRequestIssueRow| x@) =~= joined.push(
                        link(pr@),
                    ));
                    assert(before.push(pr@).map_values(show) =~= before.map_values(show).push(
                        show(pr@),
                    ));
                    assert(before.push(pr@).map_values(link) =~= before.map_values(link).push(
                        link(pr@),
                    ));
                }
            }
        }
        assert(all.take(all.len() as int) =~= all);
        (prs, links)
    }
}

impl BoardWorkspaces {
    /// The workspaces that belong to cards of a board.
    pub fn list_by_project(board: &Board, project_id: Uuid) -> (r: Vec<BoardWorkspaceRow>)
        ensures
            r@.map_values(|x: BoardWorkspaceRow| x@) == workspaces_on(
                board@,
                project_id,
            ).map_values(|w: WorkspaceRowModel| shown_workspace(board@, project_id, w)),
    {
        let ghost b = board@;
        let ghost keep = |w: WorkspaceRowModel| card_of_workspace(b, project_id, w) is Some;
        let ghost show = |w: WorkspaceRowModel| shown_workspace(b, project_id, w);
        let ghost all = b.workspaces;
        let mut out: Vec<BoardWorkspaceRow> = Vec::new();
        proof {
            lists::lemma_filter_start(all, keep);
            assert(out@.map_values(|x: BoardWorkspaceRow| x@) =~= all.take(0).filter(
                keep,
            ).map_values(show));
        }
        for i in 0..board.workspaces.len()
            invariant
                b == board@,
                all == b.workspaces,
                keep == (|w: WorkspaceRowModel| card_of_workspace(b, project_id, w) is Some),
                show == (|w: WorkspaceRowModel| shown_workspace(b, project_id, w)),
                out@.map_values(|x: BoardWorkspaceRow| x@) == all.take(i as int).filter(
                    keep,
                ).map_values(show),
        {
            let w = &board.workspaces[i];
            let ghost before = all.take(i as int).filter(keep);
            proof {
                lists::lemma_filter_next(all, keep, i as int);
                assert(all[i as int] == w@);
            }
            if let Some(c) = find_card(board, project_id, w) {
                assert(b.issues[c as int] == board.issues@[c as int]@);
                let ghost given = out@.map_values(|x: BoardWorkspaceRow| x@);
                out.push(
                    BoardWorkspaceRow {
                        id: w.id,
                        project_id,
                        owner_user_id: Uuid { bits: LOCAL_USER_ID },
                        issue_id: board.issues[c].id,
                        local_workspace_id: w.id,
                        name: text::copy_option(&w.name),
                        archived: w.archived,
                        files_changed: None,
                        lines_added: None,
                        lines_removed: None,
                        created_at: w.created_at,
                        updated_at: w.updated_at,
                    },
                );
                proof {
                    assert(out@.map_values(|x: BoardWorkspaceRow| x@) =~= given.push(show(w@)));
                    assert(before.push(w@).map_values(show) =~= before.map_values(show).push(
                        show(w@),
                    ));
                }
            }
        }
        assert(all.take(all.len() as int) =~= all);
        out
    }
}

} // verus!
