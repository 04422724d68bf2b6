//! What the operations on boards, columns, pull requests and workspaces do, field
//! by field.
use vstd::prelude::*;

use crate::board::changes::{issue_change, issue_changes, wakes};
use crate::board::projects::{
    account_key_of, bound, last_order, ordered_projects, project_change, project_changes,
    project_creation, project_keys, project_of, projects_of_org, variant_of, with_variant,
};
use crate::board::pull_requests::{
    card_of_pull_request, card_of_workspace, pull_request_link, pull_requests_on,
    shown_pull_request, shown_workspace, workspaces_on,
};
use crate::board::records::{
    CreateProjectRequest, CreateProjectStatusRequest, MergeStatus, ProjectRowModel, ProjectStatusModel,
    PullRequestRowModel, UpdateIssueRequest, UpdateProjectRequest,
    UpdateProjectStatusRequest, WorkspaceRowModel, LOCAL_ORG_ID, LOCAL_USER_ID,
};
use crate::board::statuses::{
    default_status, new_status, ordered_statuses, seeded, seeding, status_change, status_changes,
    status_insertion, status_keys, status_removal, statuses_on,
};
use crate::board::{lemma_first_index, BoardError, BoardModel};
use crate::ids::Uuid;
use crate::lists;
use crate::order;
use crate::time::Timestamp;

verus! {

// ---------------------------------------------------------------------------
// Several changes
// ---------------------------------------------------------------------------
/// Several changes of cards are made one after the other, each on what the ones
/// before it left; none of them is made where one is refused, and the refusal is
/// that of the first.
pub proof fn law_changes_are_made_in_turn(
    b: BoardModel,
    updates: Seq<(Uuid, UpdateIssueRequest)>,
    id: Uuid,
    req: UpdateIssueRequest,
    now: Timestamp,
)
    ensures
        issue_changes(b, Seq::empty(), now) == Ok::<BoardModel, BoardError>(b),
        issue_changes(b, seq![(id, req)], now) == issue_change(b, id, req, now),
        issue_changes(b, updates, now) matches Err(e) ==> issue_changes(
            b,
            updates.push((id, req)),
            now,
        ) == Err::<BoardModel, BoardError>(e),
        issue_changes(b, updates, now) matches Ok(c) ==> issue_changes(
            b,
            updates.push((id, req)),
            now,
        ) == issue_change(c, id, req, now),
{
    assert(updates.push((id, req)).drop_last() =~= updates);
    assert(seq![(id, req)].drop_last() =~= Seq::<(Uuid, UpdateIssueRequest)>::empty());
    assert(issue_changes(b, Seq::<(Uuid, UpdateIssueRequest)>::empty(), now) == Ok::<
        BoardModel,
        BoardError,
    >(b));
}

/// Several changes of columns are made one after the other, as those of cards are.
pub proof fn law_column_changes_are_made_in_turn(
    b: BoardModel,
    updates: Seq<(Uuid, UpdateProjectStatusRequest)>,
    id: Uuid,
    req: UpdateProjectStatusRequest,
)
    ensures
        status_changes(b, Seq::empty()) == Ok::<BoardModel, BoardError>(b),
        status_changes(b, seq![(id, req)]) == status_change(b, id, req),
        status_changes(b, updates) matches Err(e) ==> status_changes(b, updates.push((id, req)))
            == Err::<BoardModel, BoardError>(e),
        status_changes(b, updates) matches Ok(c) ==> status_changes(b, updates.push((id, req)))
            == status_change(c, id, req),
{
    assert(updates.push((id, req)).drop_last() =~= updates);
    assert(seq![(id, req)].drop_last() =~= Seq::<(Uuid, UpdateProjectStatusRequest)>::empty());
    assert(status_changes(b, Seq::<(Uuid, UpdateProjectStatusRequest)>::empty()) == Ok::<
        BoardModel,
        BoardError,
    >(b));
}

/// Several changes of boards are made one after the other, as those of cards are.
pub proof fn law_project_changes_are_made_in_turn(
    b: BoardModel,
    updates: Seq<(Uuid, UpdateProjectRequest)>,
    id: Uuid,
    req: UpdateProjectRequest,
    now: Timestamp,
)
    ensures
        project_changes(b, Seq::empty(), now) == Ok::<BoardModel, BoardError>(b),
        project_changes(b, seq![(id, req)], now) == project_change(b, id, req, now),
        project_changes(b, updates, now) matches Err(e) ==> project_changes(
            b,
            updates.push((id, req)),
            now,
        ) == Err::<BoardModel, BoardError>(e),
        project_changes(b, updates, now) matches Ok(c) ==> project_changes(
            b,
            updates.push((id, req)),
            now,
        ) == project_change(c, id, req, now),
{
    assert(updates.push((id, req)).drop_last() =~= updates);
    assert(seq![(id, req)].drop_last() =~= Seq::<(Uuid, UpdateProjectRequest)>::empty());
    assert(project_changes(b, Seq::<(Uuid, UpdateProjectRequest)>::empty(), now) == Ok::<
        BoardModel,
        BoardError,
    >(b));
}

/// The mirror is woken by a change that takes a linked card to another column, and
/// by no other.
pub proof fn law_only_moves_of_linked_cards_wake(b: BoardModel, id: Uuid, req: UpdateIssueRequest)
    ensures
        wakes(b, id, req) <==> {
            &&& b.issue_at(id) matches Some(i)
            &&& b.issues[i].linear_issue_id is Some
            &&& req.status_id matches Some(s)
            &&& s != b.issues[i].status_id
        },
{
}

// ---------------------------------------------------------------------------
// Columns
// ---------------------------------------------------------------------------
/// A new column comes after all others and holds what the request gives, each value
/// under its own name; one whose identifier is taken is refused, and nothing else
/// changes.
pub proof fn law_new_column_holds_what_was_asked_for(
    b: BoardModel,
    req: CreateProjectStatusRequest,
    id: Uuid,
    now: Timestamp,
)
    ensures
        b.status_at(id) is Some ==> status_insertion(b, new_status(req, id, now)) == Err::<
            BoardModel,
            BoardError,
        >(BoardError::UniqueViolation),
        b.status_at(id) is None ==> {
            &&& status_insertion(b, new_status(req, id, now)) matches Ok(c)
            &&& c.statuses.len() == b.statuses.len() + 1
            &&& c.statuses.last().id == id
            &&& c.statuses.last().project_id == req.project_id
            &&& c.statuses.last().name == req.name@
            &&& c.statuses.last().color == req.color@
            &&& c.statuses.last().sort_order == req.sort_order
            &&& c.statuses.last().hidden == req.hidden
            &&& c.statuses.last().created_at == now
            &&& forall|j: int|
                0 <= j < b.statuses.len() ==> #[trigger] c.statuses[j] == b.statuses[j]
            &&& c.organizations == b.organizations
            &&& c.projects == b.projects
            &&& c.issues == b.issues
            &&& c.workspaces == b.workspaces
            &&& c.pull_requests == b.pull_requests
        },
{
}

/// A change of a column sets what the request gives and leaves the rest; a column
/// that is not there is refused.
pub proof fn law_column_change_sets_what_is_asked_for(
    b: BoardModel,
    id: Uuid,
    req: UpdateProjectStatusRequest,
)
    ensures
        b.status_at(id) is None ==> status_change(b, id, req) == Err::<BoardModel, BoardError>(
            BoardError::RowNotFound,
        ),
        b.status_at(id) matches Some(i) ==> {
            let was = b.statuses[i];
            &&& status_change(b, id, req) matches Ok(c)
            &&& c.statuses.len() == b.statuses.len()
            &&& req.name matches Some(n) ==> c.statuses[i].name == n@
            &&& req.name is None ==> c.statuses[i].name == was.name
            &&& req.color matches Some(x) ==> c.statuses[i].color == x@
            &&& req.color is None ==> c.statuses[i].color == was.color
            &&& req.sort_order matches Some(n) ==> c.statuses[i].sort_order == n
            &&& req.sort_order is None ==> c.statuses[i].sort_order == was.sort_order
            &&& req.hidden matches Some(h) ==> c.statuses[i].hidden == h
            &&& req.hidden is None ==> c.statuses[i].hidden == was.hidden
            &&& c.statuses[i].id == was.id
            &&& c.statuses[i].project_id == was.project_id
            &&& c.statuses[i].created_at == was.created_at
            &&& forall|j: int|
                0 <= j < b.statuses.len() && j != i ==> #[trigger] c.statuses[j] == b.statuses[j]
            &&& c.organizations == b.organizations
            &&& c.projects == b.projects
            &&& c.issues == b.issues
            &&& c.workspaces == b.workspaces
            &&& c.pull_requests == b.pull_requests
        },
{
    lemma_first_index(b.status_ids(), id);
}

/// A column without cards is taken away and no other; one with cards is refused, and
/// one that is not there is no error.
pub proof fn law_only_an_empty_column_is_removed(b: BoardModel, id: Uuid)
    ensures
        b.status_at(id) is None ==> status_removal(b, id) == Ok::<BoardModel, BoardError>(b),
        b.status_at(id) matches Some(i) ==> {
            let used = exists|j: int|
                0 <= j < b.issues.len() && (#[trigger] b.issues[j]).status_id == id;
            &&& used ==> status_removal(b, id) == Err::<BoardModel, BoardError>(
                BoardError::ForeignKeyViolation,
            )
            &&& !used ==> {
                &&& status_removal(b, id) matches Ok(c)
                &&& b.statuses[i].id == id
                &&& c.statuses.len() == b.statuses.len() - 1
                &&& forall|j: int| 0 <= j < i ==> #[trigger] c.statuses[j] == b.statuses[j]
                &&& forall|j: int|
                    i <= j < c.statuses.len() ==> #[trigger] c.statuses[j] == b.statuses[j + 1]
                &&& c.issues == b.issues
                &&& c.projects == b.projects
            }
        },
{
    lemma_first_index(b.status_ids(), id);
    if let Some(i) = b.status_at(id) {
        assert(b.status_ids()[i] == b.statuses[i].id);
    }
}

/// A board starts with five visible columns, in order from the left: to do, in
/// progress, in review, done and cancelled, each in its own colour.
pub proof fn law_default_columns(project_id: Uuid, ids: Seq<Uuid>, now: Timestamp, k: int)
    requires
        0 <= k < 5,
    ensures
        ({
            let s = default_status(project_id, ids, now, k);
            &&& s.id == ids[k]
            &&& s.project_id == project_id
            &&& s.sort_order == k
            &&& !s.hidden
            &&& s.created_at == now
            &&& k == 0 ==> s.name == "Todo"@ && s.color == "220 9% 46%"@
            &&& k == 1 ==> s.name == "In Progress"@ && s.color == "38 92% 50%"@
            &&& k == 2 ==> s.name == "In Review"@ && s.color == "221 83% 53%"@
            &&& k == 3 ==> s.name == "Done"@ && s.color == "142 71% 45%"@
            &&& k == 4 ==> s.name == "Cancelled"@ && s.color == "0 84% 60%"@
        }),
{
}

/// Seeding a board that has no columns adds five, and one that has columns none.
pub proof fn law_seeding_adds_five_columns_or_none(
    b: BoardModel,
    project_id: Uuid,
    ids: Seq<Uuid>,
    now: Timestamp,
)
    requires
        seeded(b, project_id, ids, now).error is None,
    ensures
        ({
            let c = seeded(b, project_id, ids, now).board;
            let there = exists|j: int|
                0 <= j < b.statuses.len() && (#[trigger] b.statuses[j]).project_id == project_id;
            &&& there ==> c == b
            &&& !there ==> {
                &&& c.statuses.len() == b.statuses.len() + 5
                &&& forall|j: int|
                    0 <= j < b.statuses.len() ==> #[trigger] c.statuses[j] == b.statuses[j]
                &&& forall|k: int|
                    0 <= k < 5 ==> (#[trigger] c.statuses[b.statuses.len() + k]).project_id
                        == project_id && c.statuses[b.statuses.len() + k].id == ids[k]
                        && c.statuses[b.statuses.len() + k].sort_order == k
                &&& c.projects == b.projects
                &&& c.issues == b.issues
            }
        }),
{
    if !crate::board::statuses::has_columns(b, project_id) {
        crate::board::laws::law_seeding_adds_the_default_columns(b, project_id, ids, now, 5);
    }
}

/// The columns of a board are listed with none left out and none added, by
/// position.
pub proof fn law_columns_are_listed_by_position(b: BoardModel, project_id: Uuid)
    ensures
        ({
            let rows = ordered_statuses(b, project_id);
            &&& rows.len() == b.statuses.filter(
                |s: ProjectStatusModel| s.project_id == project_id,
            ).len()
            &&& forall|x: ProjectStatusModel|
                rows.contains(x) <==> b.statuses.contains(x) && x.project_id == project_id
            &&& forall|i: int, j: int|
                0 <= i < j < rows.len() ==> (#[trigger] rows[i]).sort_order <= (
                #[trigger] rows[j]).sort_order
        }),
{
    let keep = |s: ProjectStatusModel| s.project_id == project_id;
    let kept = statuses_on(b, project_id);
    let keys = status_keys(kept);
    let rows = ordered_statuses(b, project_id);
    let perm = order::stable_order(keys);
    order::lemma_arranged(kept, keys);
    order::lemma_stable_order_exists(keys);
    assert forall|x: ProjectStatusModel|
        rows.contains(x) <==> b.statuses.contains(x) && x.project_id == project_id by {
        lists::lemma_filter_contains(b.statuses, keep, x);
        assert(rows.contains(x) <==> kept.contains(x));
    }
    assert forall|i: int, j: int| 0 <= i < j < rows.len() implies (#[trigger] rows[i]).sort_order
        <= (#[trigger] rows[j]).sort_order by {
        assert(order::comes_before(keys, perm[i], perm[j]));
        assert(rows[i] == kept[perm[i]] && rows[j] == kept[perm[j]]);
    }
}

// ---------------------------------------------------------------------------
// Boards
// ---------------------------------------------------------------------------
/// Callers see of a board what its row holds, each value under its own name.
pub proof fn law_board_shows_its_row(row: ProjectRowModel)
    ensures
        project_of(row).id == row.id,
        project_of(row).organization_id == row.organization_id,
        project_of(row).name == row.name,
        project_of(row).color == row.color,
        project_of(row).sort_order == row.sort_order,
        project_of(row).created_at == row.created_at,
        project_of(row).updated_at == row.updated_at,
{
}

/// The boards of an organization are listed with none left out and none added, by
/// position and then by when they were created.
pub proof fn law_boards_are_listed_by_position(b: BoardModel, organization_id: Uuid)
    ensures
        ({
            let out = ordered_projects(b, organization_id);
            &&& out.len() == b.projects.filter(
                |p: ProjectRowModel| p.organization_id == organization_id,
            ).len()
            &&& forall|i: int|
                0 <= i < b.projects.len() && (#[trigger] b.projects[i]).organization_id
                    == organization_id ==> out.contains(project_of(b.projects[i]))
            &&& forall|k: int|
                0 <= k < out.len() ==> (#[trigger] out[k]).organization_id == organization_id
            &&& forall|i: int, j: int|
                0 <= i < j < out.len() ==> (#[trigger] out[i]).sort_order < (
                #[trigger] out[j]).sort_order || (out[i].sort_order == out[j].sort_order
                    && !out[j].created_at.before(out[i].created_at))
        }),
{
    let keep = |p: ProjectRowModel| p.organization_id == organization_id;
    let kept = projects_of_org(b, organization_id);
    let keys = project_keys(kept);
    let rows = order::arranged(kept, keys);
    let out = ordered_projects(b, organization_id);
    let perm = order::stable_order(keys);
    order::lemma_arranged(kept, keys);
    order::lemma_stable_order_exists(keys);
    assert forall|i: int|
        0 <= i < b.projects.len() && (#[trigger] b.projects[i]).organization_id
            == organization_id implies out.contains(project_of(b.projects[i])) by {
        lists::lemma_filter_contains(b.projects, keep, b.projects[i]);
        assert(rows.contains(b.projects[i]));
        let k = choose|k: int| 0 <= k < rows.len() && rows[k] == b.projects[i];
        assert(out[k] == project_of(b.projects[i]));
    }
    assert forall|k: int| 0 <= k < out.len() implies (#[trigger] out[k]).organization_id
        == organization_id by {
        assert(rows.contains(rows[k]));
        lists::lemma_filter_contains(b.projects, keep, rows[k]);
        assert(out[k] == project_of(rows[k]));
    }
    assert forall|i: int, j: int| 0 <= i < j < out.len() implies (#[trigger] out[i]).sort_order < (
    #[trigger] out[j]).sort_order || (out[i].sort_order == out[j].sort_order
        && !out[j].created_at.before(out[i].created_at)) by {
        assert(order::comes_before(keys, perm[i], perm[j]));
        assert(rows[i] == kept[perm[i]] && rows[j] == kept[perm[j]]);
        assert(out[i] == project_of(rows[i]) && out[j] == project_of(rows[j]));
        crate::time::lemma_rank_orders(rows[j].created_at, rows[i].created_at);
    }
}

/// A new board belongs to the local organization, has the name and the colour of the
/// request, has counted nothing yet, and is bound to no account and no variant.
pub proof fn law_new_board_holds_what_was_asked_for(
    b: BoardModel,
    req: CreateProjectRequest,
    id: Uuid,
    status_ids: Seq<Uuid>,
    now: Timestamp,
)
    requires
        project_creation(b, req, id, status_ids, now) is Ok,
    ensures
        ({
            let c = project_creation(b, req, id, status_ids, now)->Ok_0;
            let row = c.projects[b.projects.len() as int];
            &&& c.projects.len() == b.projects.len() + 1
            &&& forall|j: int|
                0 <= j < b.projects.len() ==> #[trigger] c.projects[j] == b.projects[j]
            &&& row.id == id
            &&& row.organization_id == (Uuid { bits: LOCAL_ORG_ID })
            &&& row.organization_id.bits == 1
            &&& row.name == req.name@
            &&& row.color == req.color@
            &&& row.issue_counter == 0
            &&& row.linear_account_key is None
            &&& row.claude_account_variant is None
            &&& row.created_at == now
            &&& row.updated_at == now
            &&& c.statuses.len() == b.statuses.len() + 5
            &&& forall|k: int|
                0 <= k < 5 ==> (#[trigger] c.statuses[b.statuses.len() + k]).project_id == id
                    && c.statuses[b.statuses.len() + k].id == status_ids[k]
                    && c.statuses[b.statuses.len() + k].sort_order == k
            &&& c.issues == b.issues
            &&& c.organizations == b.organizations
        }),
        ({
            let c = project_creation(b, req, id, status_ids, now)->Ok_0;
            let row = c.projects[b.projects.len() as int];
            &&& (forall|j: int|
                0 <= j < b.projects.len() ==> (#[trigger] b.projects[j]).organization_id != (Uuid {
                    bits: LOCAL_ORG_ID,
                })) ==> row.sort_order == 0
            &&& forall|j: int|
                0 <= j < b.projects.len() && (#[trigger] b.projects[j]).organization_id == (Uuid {
                    bits: LOCAL_ORG_ID,
                }) ==> b.projects[j].sort_order < row.sort_order
            &&& (exists|j: int|
                0 <= j < b.projects.len() && (#[trigger] b.projects[j]).organization_id == (Uuid {
                    bits: LOCAL_ORG_ID,
                })) ==> exists|j: int|
                0 <= j < b.projects.len() && (#[trigger] b.projects[j]).organization_id == (Uuid {
                    bits: LOCAL_ORG_ID,
                }) && b.projects[j].sort_order + 1 == row.sort_order
        }),
{
    let row = crate::board::projects::new_project(b, req, id, now);
    let d = BoardModel { projects: b.projects.push(row), ..b };
    crate::board::laws::law_seeding_adds_the_default_columns(d, id, status_ids, now, 5);
    crate::board::laws::lemma_last_order_exists(b);
    let org = Uuid { bits: LOCAL_ORG_ID };
    let local = |p: ProjectRowModel| p.organization_id == org;
    let n = last_order(b);
    if exists|j: int| 0 <= j < b.projects.len() && (#[trigger] b.projects[j]).organization_id == org {
        let j = choose|j: int|
            0 <= j < b.projects.len() && (#[trigger] b.projects[j]).organization_id == org;
        assert(local(b.projects[j]));
        let m = choose|m: int|
            0 <= m < b.projects.len() && local(#[trigger] b.projects[m])
                && b.projects[m].sort_order == n;
        assert(b.projects[m].organization_id == org && b.projects[m].sort_order + 1
            == row.sort_order);
        assert forall|j: int|
            0 <= j < b.projects.len() && (#[trigger] b.projects[j]).organization_id
                == org implies b.projects[j].sort_order < row.sort_order by {
            assert(local(b.projects[j]));
        }
    } else {
        assert forall|j: int| 0 <= j < b.projects.len() implies !local(#[trigger] b.projects[j]) by {
            assert(b.projects[j].organization_id != org);
        }
        assert(n == -1);
    }
}

/// A change of a board sets what the request gives, notes the time and leaves the
/// rest; a board that is not there is refused.
pub proof fn law_board_change_sets_what_is_asked_for(
    b: BoardModel,
    id: Uuid,
    req: UpdateProjectRequest,
    now: Timestamp,
)
    ensures
        b.project_at(id) is None ==> project_change(b, id, req, now) == Err::<
            BoardModel,
            BoardError,
        >(BoardError::RowNotFound),
        b.project_at(id) matches Some(i) ==> {
            let was = b.projects[i];
            &&& project_change(b, id, req, now) matches Ok(c)
            &&& c.projects.len() == b.projects.len()
            &&& req.name matches Some(n) ==> c.projects[i].name == n@
            &&& req.name is None ==> c.projects[i].name == was.name
            &&& req.color matches Some(x) ==> c.projects[i].color == x@
            &&& req.color is None ==> c.projects[i].color == was.color
            &&& req.sort_order matches Some(n) ==> c.projects[i].sort_order == n
            &&& req.sort_order is None ==> c.projects[i].sort_order == was.sort_order
            &&& c.projects[i].updated_at == now
            &&& c.projects[i].created_at == was.created_at
            &&& c.projects[i].id == was.id
            &&& c.projects[i].organization_id == was.organization_id
            &&& c.projects[i].issue_counter == was.issue_counter
            &&& c.projects[i].linear_account_key == was.linear_account_key
            &&& c.projects[i].claude_account_variant == was.claude_account_variant
            &&& forall|j: int|
                0 <= j < b.projects.len() && j != i ==> #[trigger] c.projects[j] == b.projects[j]
            &&& c.organizations == b.organizations
            &&& c.statuses == b.statuses
            &&& c.issues == b.issues
            &&& c.workspaces == b.workspaces
            &&& c.pull_requests == b.pull_requests
        },
{
    lemma_first_index(b.project_ids(), id);
}

/// What a board is bound to is what it was last bound to, and binding it changes
/// nothing else: not its variant, nor what any other board is bound to. A board that
/// is not there is bound to nothing.
pub proof fn law_binding_is_what_was_bound(
    b: BoardModel,
    id: Uuid,
    key: Option<Seq<char>>,
    other: Uuid,
)
    ensures
        b.project_at(id) is Some ==> account_key_of(bound(b, id, key), id) == key,
        b.project_at(id) is None ==> bound(b, id, key) == b && account_key_of(b, id) is None,
        other != id ==> account_key_of(bound(b, id, key), other) == account_key_of(b, other),
        variant_of(bound(b, id, key), other) == variant_of(b, other),
        b.project_at(id) matches Some(i) ==> bound(b, id, key) == (BoardModel {
            projects: b.projects.update(
                i,
                ProjectRowModel { linear_account_key: key, ..b.projects[i] },
            ),
            ..b
        }),
        b.project_at(id) matches Some(i) ==> account_key_of(b, id)
            == b.projects[i].linear_account_key,
{
    lemma_first_index(b.project_ids(), id);
    lemma_first_index(b.project_ids(), other);
    let c = bound(b, id, key);
    assert(c.project_ids() =~= b.project_ids());
    if let Some(i) = b.project_at(id) {
        assert(b.project_ids()[i] == id);
    }
}

/// The variant that a board defaults to is the one that was last set, and setting it
/// changes nothing else: not what the board is bound to, nor any other board.
pub proof fn law_variant_is_what_was_set(
    b: BoardModel,
    id: Uuid,
    variant: Option<Seq<char>>,
    other: Uuid,
)
    ensures
        b.project_at(id) is Some ==> variant_of(with_variant(b, id, variant), id) == variant,
        b.project_at(id) is None ==> with_variant(b, id, variant) == b && variant_of(b, id) is None,
        other != id ==> variant_of(with_variant(b, id, variant), other) == variant_of(b, other),
        account_key_of(with_variant(b, id, variant), other) == account_key_of(b, other),
        b.project_at(id) matches Some(i) ==> with_variant(b, id, variant) == (BoardModel {
            projects: b.projects.update(
                i,
                ProjectRowModel { claude_account_variant: variant, ..b.projects[i] },
            ),
            ..b
        }),
        b.project_at(id) matches Some(i) ==> variant_of(b, id)
            == b.projects[i].claude_account_variant,
{
    lemma_first_index(b.project_ids(), id);
    lemma_first_index(b.project_ids(), other);
    let c = with_variant(b, id, variant);
    assert(c.project_ids() =~= b.project_ids());
    if let Some(i) = b.project_at(id) {
        assert(b.project_ids()[i] == id);
    }
}

// ---------------------------------------------------------------------------
// Pull requests and workspaces
// ---------------------------------------------------------------------------
/// A workspace belongs to the card that it names, where that is a card of the board;
/// a pull request belongs to the card of its workspace.
pub proof fn law_work_belongs_to_the_card_it_names(
    b: BoardModel,
    project_id: Uuid,
    w: WorkspaceRowModel,
    pr: PullRequestRowModel,
)
    ensures
        card_of_workspace(b, project_id, w) matches Some(i) ==> 0 <= i < b.issues.len()
            && w.issue_id == Some(b.issues[i].id) && b.issues[i].project_id == project_id,
        card_of_workspace(b, project_id, w) is None <==> !(w.issue_id matches Some(id)
            && b.issue_at(id) matches Some(i) && b.issues[i].project_id == project_id),
        card_of_pull_request(b, project_id, pr) matches Some(i) ==> {
            &&& pr.workspace_id matches Some(id)
            &&& b.workspace_at(id) matches Some(k)
            &&& b.workspaces[k].id == id
            &&& card_of_workspace(b, project_id, b.workspaces[k]) == Some(i)
        },
        card_of_pull_request(b, project_id, pr) is None <==> !(pr.workspace_id matches Some(id)
            && b.workspace_at(id) matches Some(k) && card_of_workspace(
            b,
            project_id,
            b.workspaces[k],
        ) is Some),
{
    if let Some(id) = w.issue_id {
        lemma_first_index(b.issue_ids(), id);
        if let Some(i) = b.issue_at(id) {
            assert(b.issue_ids()[i] == b.issues[i].id);
        }
    }
    if let Some(id) = pr.workspace_id {
        let ids = b.workspaces.map_values(|r: WorkspaceRowModel| r.id);
        lemma_first_index(ids, id);
        if let Some(k) = b.workspace_at(id) {
            assert(ids[k] == b.workspaces[k].id);
        }
    }
}

/// A pull request is shown as its row has it, each value under its own name, with
/// the board and with the card that it belongs to; the join names the two.
pub proof fn law_pull_request_is_shown_with_its_card(
    b: BoardModel,
    project_id: Uuid,
    pr: PullRequestRowModel,
    i: int,
)
    requires
        card_of_pull_request(b, project_id, pr) == Some(i),
    ensures
        ({
            let s = shown_pull_request(b, project_id, pr);
            &&& s.id == pr.id
            &&& s.url == pr.pr_url
            &&& s.number == pr.pr_number
            &&& s.merged_at == pr.merged_at
            &&& s.merge_commit_sha == pr.merge_commit_sha
            &&& s.target_branch_name == pr.target_branch_name
            &&& s.project_id == project_id
            &&& s.issue_id == b.issues[i].id
            &&& s.workspace_id == pr.workspace_id
            &&& s.created_at == pr.created_at
            &&& s.updated_at == pr.updated_at
            &&& s.check_status == pr.check_status
            &&& pr.pr_status == MergeStatus::Open ==> s.status == "open"@
            &&& pr.pr_status == MergeStatus::Merged ==> s.status == "merged"@
            &&& pr.pr_status == MergeStatus::Closed ==> s.status == "closed"@
            &&& pr.pr_status == MergeStatus::Unknown ==> s.status == "closed"@
        }),
        ({
            let link = pull_request_link(b, project_id, pr);
            &&& link.id == pr.id
            &&& link.pull_request_id == pr.id
            &&& link.issue_id == b.issues[i].id
        }),
{
}

/// A workspace is shown as its row has it, each value under its own name, with the
/// board and with the card that it belongs to; it is the local user's, and nothing
/// is said of its diff.
pub proof fn law_workspace_is_shown_with_its_card(
    b: BoardModel,
    project_id: Uuid,
    w: WorkspaceRowModel,
    i: int,
)
    requires
        card_of_workspace(b, project_id, w) == Some(i),
    ensures
        ({
            let s = shown_workspace(b, project_id, w);
            &&& s.id == w.id
            &&& s.local_workspace_id == w.id
            &&& s.project_id == project_id
            &&& s.owner_user_id == (Uuid { bits: LOCAL_USER_ID })
            &&& s.owner_user_id.bits == 2
            &&& s.issue_id == b.issues[i].id
            &&& s.name == w.name
            &&& s.archived == w.archived
            &&& s.files_changed is None
            &&& s.lines_added is None
            &&& s.lines_removed is None
            &&& s.created_at == w.created_at
            &&& s.updated_at == w.updated_at
        }),
{
}

/// The pull requests and the workspaces of a board are those that belong to a card of
/// it, all of them and no others.
pub proof fn law_work_of_a_board_is_that_of_its_cards(
    b: BoardModel,
    project_id: Uuid,
    pr: PullRequestRowModel,
    w: WorkspaceRowModel,
)
    ensures
        pull_requests_on(b, project_id).contains(pr) <==> b.pull_requests.contains(pr)
            && card_of_pull_request(b, project_id, pr) is Some,
        workspaces_on(b, project_id).contains(w) <==> b.workspaces.contains(w)
            && card_of_workspace(b, project_id, w) is Some,
{
    lists::lemma_filter_contains(
        b.pull_requests,
        |x: PullRequestRowModel| card_of_pull_request(b, project_id, x) is Some,
        pr,
    );
    lists::lemma_filter_contains(
        b.workspaces,
        |x: WorkspaceRowModel| card_of_workspace(b, project_id, x) is Some,
        w,
    );
}

/// A board is created where its identifier and those of its columns are free and the
/// positions have room after the last; else it is refused.
pub proof fn law_board_is_created_under_free_identifiers(
    b: BoardModel,
    req: CreateProjectRequest,
    id: Uuid,
    status_ids: Seq<Uuid>,
    now: Timestamp,
)
    requires
        status_ids.len() == 5,
        forall|j: int|
            0 <= j < b.projects.len() && (#[trigger] b.projects[j]).organization_id == (Uuid {
                bits: LOCAL_ORG_ID,
            }) ==> b.projects[j].sort_order < i32::MAX,
    ensures
        b.project_at(id) is Some ==> project_creation(b, req, id, status_ids, now) == Err::<
            BoardModel,
            BoardError,
        >(BoardError::UniqueViolation),
        b.project_at(id) is None ==> (project_creation(b, req, id, status_ids, now) is Ok <==> (
        forall|k: int| 0 <= k < 5 ==> b.status_at(#[trigger] status_ids[k]) is None) && (forall|
            k: int,
            m: int,
        |
            0 <= k < m < 5 ==> #[trigger] status_ids[k] != #[trigger] status_ids[m])),
        project_creation(b, req, id, status_ids, now) matches Err(e) ==> e
            == BoardError::UniqueViolation,
{
    crate::board::laws::lemma_last_order_exists(b);
    let org = Uuid { bits: LOCAL_ORG_ID };
    let local = |p: ProjectRowModel| p.organization_id == org;
    let n = last_order(b);
    assert(n < i32::MAX) by {
        if exists|m: int| 0 <= m < b.projects.len() && local(#[trigger] b.projects[m]) {
            let m = choose|m: int|
                0 <= m < b.projects.len() && local(#[trigger] b.projects[m])
                    && b.projects[m].sort_order == n;
            assert(b.projects[m].organization_id == org);
        }
    }
    let row = crate::board::projects::new_project(b, req, id, now);
    let d = BoardModel { projects: b.projects.push(row), ..b };
    assert(d.status_ids() == b.status_ids());
    lemma_seeding_needs_free_identifiers(d, id, status_ids, now, 5);
}

/// Columns are put in as long as their identifiers are free and differ.
proof fn lemma_seeding_needs_free_identifiers(
    b: BoardModel,
    project_id: Uuid,
    ids: Seq<Uuid>,
    now: Timestamp,
    n: nat,
)
    requires
        n <= ids.len(),
    ensures
        seeding(b, project_id, ids, now, n).error is None <==> (forall|k: int|
            0 <= k < n ==> b.status_at(#[trigger] ids[k]) is None) && (forall|k: int, m: int|
            0 <= k < m < n ==> #[trigger] ids[k] != #[trigger] ids[m]),
        seeding(b, project_id, ids, now, n).error matches Some(e) ==> e
            == BoardError::UniqueViolation,
    decreases n,
{
    if n > 0 {
        let m = (n - 1) as nat;
        let last = ids[n - 1];
        lemma_seeding_needs_free_identifiers(b, project_id, ids, now, m);
        let s = seeding(b, project_id, ids, now, m);
        if s.error is None {
            crate::board::laws::law_seeding_adds_the_default_columns(b, project_id, ids, now, m);
            let here = s.board.status_ids();
            lemma_first_index(here, last);
            lemma_first_index(b.status_ids(), last);
            assert forall|j: int| 0 <= j < b.statuses.len() implies here[j] == (
            #[trigger] b.status_ids()[j]) by {}
            assert forall|k: int| 0 <= k < m implies here[b.statuses.len() + k] == (
            #[trigger] ids[k]) by {}
            if s.board.status_at(last) is Some {
                let i = s.board.status_at(last)->0;
                if i < b.statuses.len() {
                    assert(b.status_ids()[i] == last);
                } else {
                    let k = i - b.statuses.len();
                    assert(ids[k] == last);
                    assert(ids[k] == ids[n - 1]);
                }
            } else {
                assert(b.status_at(last) is None) by {
                    if b.status_at(last) is Some {
                        let i = b.status_at(last)->0;
                        assert(here[i] == last);
                    }
                }
                assert forall|k: int| 0 <= k < m implies #[trigger] ids[k] != ids[n - 1] by {
                    assert(here[b.statuses.len() + k] != last);
                }
            }
        } else if (forall|k: int| 0 <= k < n ==> b.status_at(#[trigger] ids[k]) is None) && (forall|
            k: int,
            j: int,
        |
            0 <= k < j < n ==> #[trigger] ids[k] != #[trigger] ids[j]) {
            assert(false);
        }
    }
}

} // verus!
