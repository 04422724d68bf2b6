//! What the operations on cards do, field by field.
use vstd::prelude::*;

use crate::board::changes::{issue_change, issue_removal};
use crate::board::import::{
    import_progress, import_status, imported, is_last_slot, is_leftmost, ImportSetting,
};
use crate::board::issues::{
    creation, found, issue_keys, issue_of, issues_of, issues_on, ordered_issues, search_answer,
    sought,
};
use crate::board::laws::{
    law_import_links_every_issue, law_import_only_adds, law_list_is_complete_and_ordered,
};
use crate::board::links::{
    all_badged, cleared, has_badge, link_of, linked_issues, linking, pending_pushes, push_of,
    synced, unlinking,
};
use crate::board::records::{
    CreateIssueRequest, ImportCardModel, IssueModel, IssueRowModel, ProjectStatusModel,
    SearchIssuesRequest, SortKey, UpdateIssueRequest,
};
use crate::board::{lemma_first_index, BoardError, BoardModel};
use crate::ids::Uuid;
use crate::json::{json_parse, json_text, value_model, JsonModel};
use crate::lists;
use crate::order;
use crate::text;
use crate::time::Timestamp;

verus! {

// ---------------------------------------------------------------------------
// Reading
// ---------------------------------------------------------------------------
/// Callers see of a card what its row holds, each value under its own name. The
/// extension metadata is the document that the stored text reads as; a text that
/// is none reads as an empty object.
pub proof fn law_card_shows_its_row(row: IssueRowModel)
    ensures
        issue_of(row).id == row.id,
        issue_of(row).project_id == row.project_id,
        issue_of(row).issue_number == row.issue_number,
        issue_of(row).simple_id == row.simple_id,
        issue_of(row).status_id == row.status_id,
        issue_of(row).title == row.title,
        issue_of(row).description == row.description,
        issue_of(row).priority == row.priority,
        issue_of(row).start_date == row.start_date,
        issue_of(row).target_date == row.target_date,
        issue_of(row).completed_at == row.completed_at,
        issue_of(row).sort_order == row.sort_order,
        issue_of(row).parent_issue_id == row.parent_issue_id,
        issue_of(row).parent_issue_sort_order == row.parent_issue_sort_order,
        json_parse(row.extension_metadata) matches Ok(m) ==> issue_of(row).extension_metadata == m,
        json_parse(row.extension_metadata) is Err ==> issue_of(row).extension_metadata
            == JsonModel::Object(Seq::empty()),
        issue_of(row).creator_user_id == row.creator_user_id,
        issue_of(row).created_at == row.created_at,
        issue_of(row).updated_at == row.updated_at,
{
}

// ---------------------------------------------------------------------------
// Changing
// ---------------------------------------------------------------------------
/// A change that is not refused sets each field of the card that the request gives
/// a value for to that value, clears each that the request clears, and leaves each
/// as it was of which the request is silent. The time of the change is noted; what
/// no request can set stays, and so do all other cards and all other tables.
pub proof fn law_change_sets_what_is_asked_for(
    b: BoardModel,
    id: Uuid,
    req: UpdateIssueRequest,
    now: Timestamp,
    i: int,
)
    requires
        issue_change(b, id, req, now) is Ok,
        b.issue_at(id) == Some(i),
    ensures
        ({
            let was = b.issues[i];
            let is_now = issue_change(b, id, req, now)->Ok_0.issues[i];
            &&& req.status_id matches Some(s) ==> is_now.status_id == s
            &&& req.status_id is None ==> is_now.status_id == was.status_id
            &&& req.title matches Some(t) ==> is_now.title == t@
            &&& req.title is None ==> is_now.title == was.title
            &&& req.description matches Some(Some(d)) ==> is_now.description == Some(d@)
            &&& req.description matches Some(None) ==> is_now.description is None
            &&& req.description is None ==> is_now.description == was.description
            &&& req.priority matches Some(Some(p)) ==> is_now.priority == Some(p)
            &&& req.priority matches Some(None) ==> is_now.priority is None
            &&& req.priority is None ==> is_now.priority == was.priority
            &&& req.start_date matches Some(Some(t)) ==> is_now.start_date == Some(t)
            &&& req.start_date matches Some(None) ==> is_now.start_date is None
            &&& req.start_date is None ==> is_now.start_date == was.start_date
            &&& req.target_date matches Some(Some(t)) ==> is_now.target_date == Some(t)
            &&& req.target_date matches Some(None) ==> is_now.target_date is None
            &&& req.target_date is None ==> is_now.target_date == was.target_date
            &&& req.completed_at matches Some(Some(t)) ==> is_now.completed_at == Some(t)
            &&& req.completed_at matches Some(None) ==> is_now.completed_at is None
            &&& req.completed_at is None ==> is_now.completed_at == was.completed_at
            &&& req.sort_order matches Some(k) ==> is_now.sort_order == k
            &&& req.sort_order is None ==> is_now.sort_order == was.sort_order
            &&& req.parent_issue_id matches Some(Some(p)) ==> is_now.parent_issue_id == Some(p)
            &&& req.parent_issue_id matches Some(None) ==> is_now.parent_issue_id is None
            &&& req.parent_issue_id is None ==> is_now.parent_issue_id == was.parent_issue_id
            &&& req.parent_issue_sort_order matches Some(Some(k)) ==> is_now.parent_issue_sort_order
                == Some(k)
            &&& req.parent_issue_sort_order matches Some(None) ==> is_now.parent_issue_sort_order
                is None
            &&& req.parent_issue_sort_order is None ==> is_now.parent_issue_sort_order
                == was.parent_issue_sort_order
            &&& req.extension_metadata matches Some(v) ==> is_now.extension_metadata == json_text(
                value_model(v),
            )
            &&& req.extension_metadata is None ==> is_now.extension_metadata == was.extension_metadata
        }),
        ({
            let was = b.issues[i];
            let is_now = issue_change(b, id, req, now)->Ok_0.issues[i];
            &&& is_now.updated_at == now
            &&& is_now.created_at == was.created_at
            &&& is_now.id == was.id
            &&& is_now.project_id == was.project_id
            &&& is_now.issue_number == was.issue_number
            &&& is_now.simple_id == was.simple_id
            &&& is_now.creator_user_id == was.creator_user_id
            &&& is_now.linear_issue_id == was.linear_issue_id
            &&& is_now.linear_issue_identifier == was.linear_issue_identifier
            &&& is_now.linear_url == was.linear_url
            &&& is_now.linear_state_id == was.linear_state_id
            &&& is_now.linear_sync_pending == (was.linear_sync_pending || (was.linear_issue_id is Some
                && is_now.status_id != was.status_id))
        }),
        ({
            let c = issue_change(b, id, req, now)->Ok_0;
            &&& c.issues.len() == b.issues.len()
            &&& forall|j: int|
                0 <= j < b.issues.len() && j != i ==> #[trigger] c.issues[j] == b.issues[j]
            &&& c.organizations == b.organizations
            &&& c.projects == b.projects
            &&& c.statuses == b.statuses
            &&& c.workspaces == b.workspaces
            &&& c.pull_requests == b.pull_requests
        }),
{
    lemma_first_index(b.issue_ids(), id);
}

/// A change is refused where there is no such card, or where there is no such
/// column as the card would be in, and nowhere else.
pub proof fn law_change_is_refused_without_card_or_column(
    b: BoardModel,
    id: Uuid,
    req: UpdateIssueRequest,
    now: Timestamp,
)
    ensures
        issue_change(b, id, req, now) == Err::<BoardModel, BoardError>(BoardError::RowNotFound)
            <==> forall|j: int| 0 <= j < b.issues.len() ==> (#[trigger] b.issues[j]).id != id,
        issue_change(b, id, req, now) == Err::<BoardModel, BoardError>(
            BoardError::ForeignKeyViolation,
        ) <==> (b.issue_at(id) matches Some(i) && forall|j: int|
            0 <= j < b.statuses.len() ==> (#[trigger] b.statuses[j]).id != (match req.status_id {
                Some(s) => s,
                None => b.issues[i].status_id,
            })),
        issue_change(b, id, req, now) matches Err(e) ==> e == BoardError::RowNotFound || e
            == BoardError::ForeignKeyViolation,
{
    lemma_first_index(b.issue_ids(), id);
    assert forall|j: int| 0 <= j < b.issues.len() implies b.issue_ids()[j] == (
    #[trigger] b.issues[j]).id by {}
    if let Some(i) = b.issue_at(id) {
        assert(b.issues[i].id == b.issue_ids()[i]);
        let column = match req.status_id {
            Some(s) => s,
            None => b.issues[i].status_id,
        };
        lemma_first_index(b.status_ids(), column);
        assert forall|j: int| 0 <= j < b.statuses.len() implies b.status_ids()[j] == (
        #[trigger] b.statuses[j]).id by {}
        if let Some(k) = b.status_at(column) {
            assert(b.statuses[k].id == column);
        }
    }
}

/// Removing a card takes its row away and no other; where there is no such card,
/// nothing goes.
pub proof fn law_removal_takes_one_card(b: BoardModel, id: Uuid)
    ensures
        ({
            let (c, gone) = issue_removal(b, id);
            &&& b.issue_at(id) matches Some(i) ==> {
                &&& gone == 1
                &&& c.issues.len() == b.issues.len() - 1
                &&& forall|j: int| 0 <= j < i ==> #[trigger] c.issues[j] == b.issues[j]
                &&& forall|j: int| i <= j < c.issues.len() ==> #[trigger] c.issues[j]
                    == b.issues[j + 1]
                &&& b.issues[i].id == id
            }
            &&& b.issue_at(id) is None ==> gone == 0 && c.issues == b.issues
            &&& c.organizations == b.organizations
            &&& c.projects == b.projects
            &&& c.statuses == b.statuses
            &&& c.workspaces == b.workspaces
            &&& c.pull_requests == b.pull_requests
        }),
{
    lemma_first_index(b.issue_ids(), id);
    if let Some(i) = b.issue_at(id) {
        assert(b.issue_ids()[i] == b.issues[i].id);
    }
}

// ---------------------------------------------------------------------------
// Creating
// ---------------------------------------------------------------------------
/// A card that is created comes after all others and holds what the request gives,
/// each value under its own name. Its number is one more than what its board has
/// counted so far, which is counted on; the number and the prefix of the
/// organization make its short name. It is linked to nothing, and nothing else
/// changes.
pub proof fn law_new_card_holds_what_was_asked_for(
    b: BoardModel,
    req: CreateIssueRequest,
    id: Uuid,
    creator_user_id: Option<Uuid>,
    now: Timestamp,
)
    requires
        creation(b, req, id, creator_user_id, now) is Ok,
    ensures
        ({
            let c = creation(b, req, id, creator_user_id, now)->Ok_0;
            let row = c.issues[b.issues.len() as int];
            &&& c.issues.len() == b.issues.len() + 1
            &&& forall|j: int| 0 <= j < b.issues.len() ==> #[trigger] c.issues[j] == b.issues[j]
            &&& row.id == id
            &&& row.project_id == req.project_id
            &&& row.status_id == req.status_id
            &&& row.title == req.title@
            &&& req.description matches Some(d) ==> row.description == Some(d@)
            &&& req.description is None ==> row.description is None
            &&& row.priority == req.priority
            &&& row.start_date == req.start_date
            &&& row.target_date == req.target_date
            &&& row.completed_at == req.completed_at
            &&& row.sort_order == req.sort_order
            &&& row.parent_issue_id == req.parent_issue_id
            &&& row.parent_issue_sort_order == req.parent_issue_sort_order
            &&& row.extension_metadata == json_text(value_model(req.extension_metadata))
            &&& row.creator_user_id == creator_user_id
            &&& row.created_at == now
            &&& row.updated_at == now
            &&& row.linear_issue_id is None
            &&& row.linear_issue_identifier is None
            &&& row.linear_url is None
            &&& row.linear_state_id is None
            &&& !row.linear_sync_pending
        }),
        ({
            let c = creation(b, req, id, creator_user_id, now)->Ok_0;
            let row = c.issues[b.issues.len() as int];
            &&& b.project_at(req.project_id) matches Some(p)
            &&& b.organization_at(b.projects[p].organization_id) matches Some(o)
            &&& c.projects.len() == b.projects.len()
            &&& c.projects[p].issue_counter == b.projects[p].issue_counter + 1
            &&& c.projects[p].id == b.projects[p].id
            &&& c.projects[p].organization_id == b.projects[p].organization_id
            &&& c.projects[p].name == b.projects[p].name
            &&& c.projects[p].color == b.projects[p].color
            &&& c.projects[p].sort_order == b.projects[p].sort_order
            &&& c.projects[p].linear_account_key == b.projects[p].linear_account_key
            &&& c.projects[p].claude_account_variant == b.projects[p].claude_account_variant
            &&& c.projects[p].created_at == b.projects[p].created_at
            &&& c.projects[p].updated_at == b.projects[p].updated_at
            &&& forall|j: int|
                0 <= j < b.projects.len() && j != p ==> #[trigger] c.projects[j] == b.projects[j]
            &&& 0 <= b.projects[p].issue_counter < i32::MAX ==> row.issue_number
                == b.projects[p].issue_counter + 1
            &&& row.simple_id == b.organizations[o].issue_prefix + "-"@ + text::decimal_int(
                row.issue_number as int,
            )
            &&& c.organizations == b.organizations
            &&& c.statuses == b.statuses
            &&& c.workspaces == b.workspaces
            &&& c.pull_requests == b.pull_requests
        }),
{
    lemma_first_index(b.project_ids(), req.project_id);
}

/// A card cannot be created on a board that is not there, in a column that is not
/// there, or under an identifier or a number that is taken; where none of that
/// holds and the count has a successor, it is created.
pub proof fn law_creation_needs_board_column_and_free_names(
    b: BoardModel,
    req: CreateIssueRequest,
    id: Uuid,
    creator_user_id: Option<Uuid>,
    now: Timestamp,
)
    ensures
        b.project_at(req.project_id) is None ==> creation(b, req, id, creator_user_id, now) == Err::<
            BoardModel,
            BoardError,
        >(BoardError::RowNotFound),
        b.project_at(req.project_id) matches Some(p) && b.projects[p].issue_counter == i64::MAX
            ==> creation(b, req, id, creator_user_id, now) == Err::<BoardModel, BoardError>(
            BoardError::Overflow,
        ),
        b.project_at(req.project_id) matches Some(p) ==> (b.projects[p].issue_counter != i64::MAX
            && b.organization_at(b.projects[p].organization_id) is Some ==> {
            let number = (b.projects[p].issue_counter + 1) as i64 as i32;
            let taken = b.issue_at(id) is Some || exists|j: int|
                0 <= j < b.issues.len() && (#[trigger] b.issues[j]).project_id == req.project_id
                    && b.issues[j].issue_number == number;
            &&& taken ==> creation(b, req, id, creator_user_id, now) == Err::<
                BoardModel,
                BoardError,
            >(BoardError::UniqueViolation)
            &&& !taken && b.status_at(req.status_id) is None ==> creation(
                b,
                req,
                id,
                creator_user_id,
                now,
            ) == Err::<BoardModel, BoardError>(BoardError::ForeignKeyViolation)
            &&& !taken && b.status_at(req.status_id) is Some ==> creation(
                b,
                req,
                id,
                creator_user_id,
                now,
            ) is Ok
        }),
{
}

// ---------------------------------------------------------------------------
// Links
// ---------------------------------------------------------------------------
/// A card that is linked carries the identifier, the short name, the address and
/// the state of the Linear issue, each under its own name, and the mark that is
/// asked for; the rest of the card and all other cards stay.
pub proof fn law_linked_card_carries_its_issue(
    b: BoardModel,
    id: Uuid,
    linear_issue_id: Seq<char>,
    identifier: Seq<char>,
    url: Seq<char>,
    state_id: Option<Seq<char>>,
    pending: bool,
    i: int,
)
    requires
        b.issue_at(id) == Some(i),
        linking(b, id, linear_issue_id, identifier, url, state_id, pending) is Ok,
    ensures
        ({
            let c = linking(b, id, linear_issue_id, identifier, url, state_id, pending)->Ok_0;
            let is_now = c.issues[i];
            &&& is_now.linear_issue_id == Some(linear_issue_id)
            &&& is_now.linear_issue_identifier == Some(identifier)
            &&& is_now.linear_url == Some(url)
            &&& is_now.linear_state_id == state_id
            &&& is_now.linear_sync_pending == pending
            &&& issue_of(is_now) == issue_of(b.issues[i])
            &&& c.issues.len() == b.issues.len()
            &&& forall|j: int|
                0 <= j < b.issues.len() && j != i ==> #[trigger] c.issues[j] == b.issues[j]
            &&& c.projects == b.projects
            &&& c.statuses == b.statuses
        }),
{
    lemma_first_index(b.issue_ids(), id);
}

/// Linking is refused where, and only where, another card mirrors the Linear
/// issue; a card that is not there is no error and changes nothing.
pub proof fn law_one_issue_has_one_card(
    b: BoardModel,
    id: Uuid,
    linear_issue_id: Seq<char>,
    identifier: Seq<char>,
    url: Seq<char>,
    state_id: Option<Seq<char>>,
    pending: bool,
)
    ensures
        b.issue_at(id) matches Some(i) ==> (linking(
            b,
            id,
            linear_issue_id,
            identifier,
            url,
            state_id,
            pending,
        ) == Err::<BoardModel, BoardError>(BoardError::UniqueViolation) <==> exists|j: int|
            0 <= j < b.issues.len() && j != i && (#[trigger] b.issues[j]).linear_issue_id == Some(
                linear_issue_id,
            )),
        linking(b, id, linear_issue_id, identifier, url, state_id, pending) matches Err(e) ==> e
            == BoardError::UniqueViolation,
        b.issue_at(id) is None ==> linking(
            b,
            id,
            linear_issue_id,
            identifier,
            url,
            state_id,
            pending,
        ) == Ok::<BoardModel, BoardError>(b),
{
}

/// Noting a state that was written to Linear takes the mark from the card and puts
/// the state on it, as long as the card is in the column that was written; giving
/// the mark up takes it without a state. A card in another column is left alone,
/// and nothing else changes.
pub proof fn law_settling_touches_mark_and_state_only(
    b: BoardModel,
    id: Uuid,
    status_id: Uuid,
    state_id: Seq<char>,
    i: int,
)
    requires
        b.issue_at(id) == Some(i),
    ensures
        b.issues[i].status_id == status_id ==> {
            let noted = synced(b, id, status_id, state_id).issues[i];
            let given_up = cleared(b, id, status_id).issues[i];
            &&& !noted.linear_sync_pending
            &&& noted.linear_state_id == Some(state_id)
            &&& noted.linear_issue_id == b.issues[i].linear_issue_id
            &&& noted.linear_issue_identifier == b.issues[i].linear_issue_identifier
            &&& noted.linear_url == b.issues[i].linear_url
            &&& issue_of(noted) == issue_of(b.issues[i])
            &&& !given_up.linear_sync_pending
            &&& given_up.linear_state_id == b.issues[i].linear_state_id
            &&& given_up.linear_issue_id == b.issues[i].linear_issue_id
            &&& given_up.linear_issue_identifier == b.issues[i].linear_issue_identifier
            &&& given_up.linear_url == b.issues[i].linear_url
            &&& issue_of(given_up) == issue_of(b.issues[i])
        },
        b.issues[i].status_id != status_id ==> synced(b, id, status_id, state_id) == b && cleared(
            b,
            id,
            status_id,
        ) == b,
        synced(b, id, status_id, state_id).issues.len() == b.issues.len(),
        cleared(b, id, status_id).issues.len() == b.issues.len(),
        forall|j: int|
            0 <= j < b.issues.len() && j != i ==> #[trigger] synced(
                b,
                id,
                status_id,
                state_id,
            ).issues[j] == b.issues[j],
        forall|j: int|
            0 <= j < b.issues.len() && j != i ==> #[trigger] cleared(b, id, status_id).issues[j]
                == b.issues[j],
{
    lemma_first_index(b.issue_ids(), id);
}

/// What a card is unlinked from, it was linked to: unlinking a card that was just
/// linked leaves it without a link and otherwise as it was.
pub proof fn law_unlinking_undoes_linking(
    b: BoardModel,
    id: Uuid,
    linear_issue_id: Seq<char>,
    identifier: Seq<char>,
    url: Seq<char>,
    state_id: Option<Seq<char>>,
    pending: bool,
    i: int,
)
    requires
        b.issue_at(id) == Some(i),
        b.issues[i].linear_issue_id is None,
        b.issues[i].linear_issue_identifier is None,
        b.issues[i].linear_url is None,
        b.issues[i].linear_state_id is None,
        !b.issues[i].linear_sync_pending,
        linking(b, id, linear_issue_id, identifier, url, state_id, pending) is Ok,
    ensures
        unlinking(
            linking(b, id, linear_issue_id, identifier, url, state_id, pending)->Ok_0,
            id,
        ) == b,
{
    let c = linking(b, id, linear_issue_id, identifier, url, state_id, pending)->Ok_0;
    lemma_first_index(b.issue_ids(), id);
    assert(c.issue_ids() =~= b.issue_ids());
    assert(unlinking(c, id).issues =~= b.issues);
}

/// The cards that await a push are those that are marked and linked and whose board
/// is there; each is listed with its own column and Linear issue, and with the
/// account that its board is bound to.
pub proof fn law_pushes_are_of_marked_cards(b: BoardModel)
    ensures
        forall|i: int|
            0 <= i < b.issues.len() && (#[trigger] b.issues[i]).linear_sync_pending
                && b.issues[i].linear_issue_id is Some && b.project_at(b.issues[i].project_id)
                is Some ==> exists|k: int|
                0 <= k < pending_pushes(b).len() && (#[trigger] pending_pushes(b)[k]).id
                    == b.issues[i].id,
        forall|k: int|
            0 <= k < pending_pushes(b).len() ==> exists|i: int|
                0 <= i < b.issues.len() && {
                    let row = #[trigger] b.issues[i];
                    let item = #[trigger] pending_pushes(b)[k];
                    &&& row.linear_sync_pending
                    &&& item.id == row.id
                    &&& item.status_id == row.status_id
                    &&& row.linear_issue_id == Some(item.linear_issue_id)
                    &&& b.project_at(row.project_id) matches Some(p)
                    &&& item.linear_account_key == b.projects[p].linear_account_key
                },
{
    let keep = |r: IssueRowModel| crate::board::links::awaits_push(b, r);
    let rows = b.issues.filter(keep);
    let items = pending_pushes(b);
    assert forall|i: int|
        0 <= i < b.issues.len() && (#[trigger] b.issues[i]).linear_sync_pending
            && b.issues[i].linear_issue_id is Some && b.project_at(b.issues[i].project_id)
            is Some implies exists|k: int|
        0 <= k < items.len() && (#[trigger] items[k]).id == b.issues[i].id by {
        lists::lemma_filter_contains(b.issues, keep, b.issues[i]);
        let k = choose|k: int| 0 <= k < rows.len() && rows[k] == b.issues[i];
        assert(items[k] == push_of(b, rows[k]));
    }
    assert forall|k: int| 0 <= k < items.len() implies exists|i: int|
        0 <= i < b.issues.len() && {
            let row = #[trigger] b.issues[i];
            let item = #[trigger] items[k];
            &&& row.linear_sync_pending
            &&& item.id == row.id
            &&& item.status_id == row.status_id
            &&& row.linear_issue_id == Some(item.linear_issue_id)
            &&& b.project_at(row.project_id) matches Some(p)
            &&& item.linear_account_key == b.projects[p].linear_account_key
        } by {
        assert(rows.contains(rows[k]));
        lists::lemma_filter_contains(b.issues, keep, rows[k]);
        let i = choose|i: int| 0 <= i < b.issues.len() && b.issues[i] == rows[k];
        assert(items[k] == push_of(b, b.issues[i]));
        assert(b.issues[i].linear_sync_pending);
    }
}

/// The links of a board are those of its linked cards, each once with the short
/// name and the address that the card carries and with whether the card is marked.
pub proof fn law_links_are_of_linked_cards(b: BoardModel, project_id: Uuid)
    ensures
        ({
            let rows = linked_issues(b, project_id);
            &&& forall|x: IssueRowModel|
                rows.contains(x) <==> b.issues.contains(x) && x.project_id == project_id
                    && x.linear_issue_id is Some
            &&& forall|k: int|
                0 <= k < rows.len() ==> {
                    let link = link_of(#[trigger] rows[k]);
                    &&& link.issue_id == rows[k].id
                    &&& rows[k].linear_issue_identifier matches Some(x)
                        ==> link.linear_issue_identifier == x
                    &&& rows[k].linear_url matches Some(x) ==> link.linear_url == x
                    &&& rows[k].linear_sync_pending ==> link.linear_sync_pending == 1
                    &&& !rows[k].linear_sync_pending ==> link.linear_sync_pending == 0
                }
        }),
{
    let keep = |r: IssueRowModel| crate::board::links::linked_on(project_id, r);
    assert forall|x: IssueRowModel|
        linked_issues(b, project_id).contains(x) <==> b.issues.contains(x) && x.project_id
            == project_id && x.linear_issue_id is Some by {
        lists::lemma_filter_contains(b.issues, keep, x);
    }
}

// ---------------------------------------------------------------------------
// Imports
// ---------------------------------------------------------------------------
/// Every card that an import adds carries the identifier, the short name, the
/// address, the state and the title of one of the issues that came in, each under
/// its own name, in the column that was picked for it; that issue had no card
/// before. Cards get positions in the order in which they are added.
pub proof fn law_imported_cards_carry_their_issues(
    b: BoardModel,
    cards: Seq<ImportCardModel>,
    setting: ImportSetting,
    r: int,
)
    requires
        b.issues.len() <= r < import_progress(b, cards, setting).board.issues.len(),
    ensures
        exists|k: int|
            0 <= k < cards.len() && {
                let card = #[trigger] cards[k];
                let row = import_progress(b, cards, setting).board.issues[r];
                &&& row.linear_issue_id == Some(card.linear_issue_id)
                &&& row.linear_issue_identifier == Some(card.linear_issue_identifier)
                &&& row.linear_url == Some(card.linear_url)
                &&& row.linear_state_id == card.linear_state_id
                &&& row.title == card.title
                &&& row.status_id == card.status_id
                &&& row.project_id == setting.project_id
                &&& row.id == setting.ids[k]
                &&& row.sort_order == setting.slots[r - b.issues.len()]
                &&& row.created_at == setting.now
                &&& row.updated_at == setting.now
                &&& !b.linked(card.linear_issue_id)
            },
    decreases cards.len(),
{
    law_import_only_adds(b, cards, setting);
    if cards.len() > 0 {
        let front = cards.drop_last();
        let n = cards.len() - 1;
        let s = import_progress(b, front, setting).board;
        let t = import_progress(b, cards, setting).board;
        law_import_only_adds(b, front, setting);
        if r < s.issues.len() {
            law_imported_cards_carry_their_issues(b, front, setting, r);
            assert(t.issues[r] == s.issues[r]);
            let k = choose|k: int|
                0 <= k < front.len() && {
                    let card = #[trigger] front[k];
                    let row = s.issues[r];
                    &&& row.linear_issue_id == Some(card.linear_issue_id)
                    &&& row.linear_issue_identifier == Some(card.linear_issue_identifier)
                    &&& row.linear_url == Some(card.linear_url)
                    &&& row.linear_state_id == card.linear_state_id
                    &&& row.title == card.title
                    &&& row.status_id == card.status_id
                    &&& row.project_id == setting.project_id
                    &&& row.id == setting.ids[k]
                    &&& row.sort_order == setting.slots[r - b.issues.len()]
                    &&& row.created_at == setting.now
                    &&& row.updated_at == setting.now
                    &&& !b.linked(card.linear_issue_id)
                };
            assert(cards[k] == front[k]);
        } else {
            assert(cards[n] == cards.last());
        }
    }
}

/// A card that an import adds has nothing but what its issue gives: no description,
/// priority, dates, parent or creator, and nothing to be written back to Linear.
/// Its short name is made of the organization's prefix and its number.
pub proof fn law_imported_cards_are_bare(
    b: BoardModel,
    cards: Seq<ImportCardModel>,
    setting: ImportSetting,
    r: int,
)
    requires
        b.issues.len() <= r < import_progress(b, cards, setting).board.issues.len(),
    ensures
        ({
            let row = import_progress(b, cards, setting).board.issues[r];
            &&& row.description is None
            &&& row.priority is None
            &&& row.start_date is None
            &&& row.target_date is None
            &&& row.completed_at is None
            &&& row.parent_issue_id is None
            &&& row.parent_issue_sort_order is None
            &&& row.creator_user_id is None
            &&& row.extension_metadata == "{}"@
            &&& !row.linear_sync_pending
        }),
        ({
            let row = import_progress(b, cards, setting).board.issues[r];
            &&& b.project_at(setting.project_id) matches Some(p)
            &&& b.organization_at(b.projects[p].organization_id) matches Some(o)
            &&& row.simple_id == b.organizations[o].issue_prefix + "-"@ + text::decimal_int(
                row.issue_number as int,
            )
        }),
    decreases cards.len(),
{
    law_import_only_adds(b, cards, setting);
    if cards.len() > 0 {
        let front = cards.drop_last();
        let s = import_progress(b, front, setting).board;
        law_import_only_adds(b, front, setting);
        if r < s.issues.len() {
            law_imported_cards_are_bare(b, front, setting, r);
            assert(import_progress(b, cards, setting).board.issues[r] == s.issues[r]);
        } else {
            lemma_import_keeps_prefix(b, front, setting);
        }
    }
}

/// An import changes nothing of what short names begin with.
proof fn lemma_import_keeps_prefix(
    b: BoardModel,
    cards: Seq<ImportCardModel>,
    setting: ImportSetting,
)
    ensures
        ({
            let s = import_progress(b, cards, setting).board;
            &&& s.organizations == b.organizations
            &&& s.project_ids() == b.project_ids()
            &&& s.projects.len() == b.projects.len()
            &&& forall|p: int|
                0 <= p < b.projects.len() ==> (#[trigger] s.projects[p]).organization_id
                    == b.projects[p].organization_id
        }),
        b.project_at(setting.project_id) matches Some(p) ==> 0 <= p < b.projects.len(),
    decreases cards.len(),
{
    lemma_first_index(b.project_ids(), setting.project_id);
    if cards.len() > 0 {
        lemma_import_keeps_prefix(b, cards.drop_last(), setting);
        let s = import_progress(b, cards.drop_last(), setting).board;
        let t = import_progress(b, cards, setting).board;
        lemma_first_index(s.project_ids(), setting.project_id);
        assert(t.project_ids() =~= s.project_ids());
    }
}

/// An import that was not stopped gives every issue that came in a card, unless one
/// mirrored it before; and where no two issues share an identifier, that card
/// carries the values of its own issue.
pub proof fn law_every_imported_issue_has_its_card(
    b: BoardModel,
    cards: Seq<ImportCardModel>,
    setting: ImportSetting,
    k: int,
)
    requires
        import_progress(b, cards, setting).error is None,
        0 <= k < cards.len(),
        !b.linked(cards[k].linear_issue_id),
        forall|i: int, j: int|
            0 <= i < j < cards.len() ==> (#[trigger] cards[i]).linear_issue_id != (
            #[trigger] cards[j]).linear_issue_id,
    ensures
        exists|r: int|
            b.issues.len() <= r < import_progress(b, cards, setting).board.issues.len() && {
                let row = #[trigger] import_progress(b, cards, setting).board.issues[r];
                &&& row.linear_issue_id == Some(cards[k].linear_issue_id)
                &&& row.linear_issue_identifier == Some(cards[k].linear_issue_identifier)
                &&& row.linear_url == Some(cards[k].linear_url)
                &&& row.linear_state_id == cards[k].linear_state_id
                &&& row.title == cards[k].title
                &&& row.status_id == cards[k].status_id
                &&& row.project_id == setting.project_id
                &&& row.id == setting.ids[k]
            },
{
    let t = import_progress(b, cards, setting).board;
    let wanted = cards[k].linear_issue_id;
    law_import_links_every_issue(b, cards, setting);
    law_import_only_adds(b, cards, setting);
    assert(t.linked(wanted));
    let r = choose|r: int|
        0 <= r < t.issues.len() && (#[trigger] t.issues[r]).linear_issue_id == Some(wanted);
    if r < b.issues.len() {
        assert(t.issues.take(b.issues.len() as int)[r] == b.issues[r]);
        assert(b.linked(wanted));
    }
    law_imported_cards_carry_their_issues(b, cards, setting, r);
    let m = choose|m: int|
        0 <= m < cards.len() && {
            let card = #[trigger] cards[m];
            let row = t.issues[r];
            &&& row.linear_issue_id == Some(card.linear_issue_id)
            &&& row.linear_issue_identifier == Some(card.linear_issue_identifier)
            &&& row.linear_url == Some(card.linear_url)
            &&& row.linear_state_id == card.linear_state_id
            &&& row.title == card.title
            &&& row.status_id == card.status_id
            &&& row.project_id == setting.project_id
            &&& row.id == setting.ids[m]
            &&& row.sort_order == setting.slots[r - b.issues.len()]
            &&& row.created_at == setting.now
            &&& row.updated_at == setting.now
            &&& !b.linked(card.linear_issue_id)
        };
    assert(cards[m].linear_issue_id == cards[k].linear_issue_id);
    assert(m == k);
    assert(t.issues[r].linear_issue_id == Some(wanted));
}

/// The column of an imported card is the leftmost of those it may be in: of the
/// visible columns that are mapped to its state where there is one, else of all
/// visible columns. Columns are ordered by position, then by age, then as they are listed.
pub proof fn law_imported_card_lands_leftmost(
    statuses: Seq<ProjectStatusModel>,
    state_map: Map<Seq<char>, Seq<char>>,
    incoming: Option<Seq<char>>,
    j: int,
)
    requires
        0 <= j < statuses.len(),
        !statuses[j].hidden,
        incoming matches Some(state) ==> ((exists|m: int|
            0 <= m < statuses.len() && !(#[trigger] statuses[m]).hidden
                && state_map.dom().contains(statuses[m].id.key())
                && state_map[statuses[m].id.key()] == state) ==> state_map.dom().contains(
            statuses[j].id.key(),
        ) && state_map[statuses[j].id.key()] == state),
    ensures
        exists|i: int|
            0 <= i < statuses.len() && import_status(statuses, state_map, incoming) == Some(
                (#[trigger] statuses[i]).id,
            ) && !statuses[i].hidden && (statuses[i].sort_order < statuses[j].sort_order || (
            statuses[i].sort_order == statuses[j].sort_order && (statuses[i].created_at.before(
                statuses[j].created_at,
            ) || (i <= j && !statuses[j].created_at.before(statuses[i].created_at))))),
{
    let mapped = |m: int|
        incoming matches Some(state) && 0 <= m < statuses.len() && !statuses[m].hidden
            && state_map.dom().contains(statuses[m].id.key())
            && state_map[statuses[m].id.key()] == state;
    if exists|m: int| #[trigger] mapped(m) {
        let m = choose|m: int| #[trigger] mapped(m);
        assert(!statuses[m].hidden);
        assert(crate::board::import::fits(state_map, incoming, statuses[j]));
        crate::board::laws::lemma_leftmost_exists(statuses, state_map, incoming, j);
        let i = choose|i: int| is_leftmost(statuses, state_map, incoming, i);
        assert(import_status(statuses, state_map, incoming) == Some(statuses[i].id));
    } else {
        if exists|i: int| is_leftmost(statuses, state_map, incoming, i) {
            let i = choose|i: int| is_leftmost(statuses, state_map, incoming, i);
            if incoming is Some {
                assert(mapped(i));
            }
        }
        assert(crate::board::import::fits(state_map, None, statuses[j]));
        crate::board::laws::lemma_leftmost_exists(statuses, state_map, None, j);
        let i = choose|i: int| is_leftmost(statuses, state_map, None, i);
        assert(import_status(statuses, state_map, incoming) == Some(statuses[i].id));
    }
}

// ---------------------------------------------------------------------------
// Searching
// ---------------------------------------------------------------------------
/// Every card that a search returns is a card of the board that was searched, in
/// the column and in one of the columns that the request names, with the priority,
/// the parent and the short name that it asks for, and with the text that it looks
/// for in its title or its description, whatever the case; what the request leaves
/// open does not restrict.
pub proof fn law_search_returns_matching_cards(b: BoardModel, req: SearchIssuesRequest, k: int)
    requires
        0 <= k < search_answer(b, req).issues.len(),
    ensures
        ({
            let x = search_answer(b, req).issues[k];
            &&& x.project_id == req.project_id
            &&& req.status_id matches Some(s) ==> x.status_id == s
            &&& req.status_ids matches Some(v) ==> v@.contains(x.status_id)
            &&& req.priority matches Some(p) ==> x.priority == Some(p)
            &&& req.parent_issue_id matches Some(p) ==> x.parent_issue_id == Some(p)
            &&& req.simple_id matches Some(s) ==> x.simple_id == s@
            &&& req.search matches Some(q) ==> text::occurs(
                text::unicode_lower(x.title) + " "@ + text::unicode_lower(
                    match x.description {
                        Some(d) => d,
                        None => ""@,
                    },
                ),
                text::unicode_lower(q@),
            )
        }),
        exists|i: int|
            0 <= i < b.issues.len() && issue_of(#[trigger] b.issues[i]) == search_answer(
                b,
                req,
            ).issues[k],
{
    let all = found(b, req);
    let rows = ordered_issues(b, req.project_id);
    let keep = |i: IssueModel| sought(req, i);
    let x = search_answer(b, req).issues[k];
    let offset = match req.offset {
        Some(n) => crate::board::issues::at_least_zero(n),
        None => 0,
    };
    law_list_is_complete_and_ordered(b, req.project_id);
    assert(x == all[offset + k]);
    assert(all.contains(x));
    lists::lemma_filter_contains(issues_of(rows), keep, x);
    let i = choose|i: int| 0 <= i < issues_of(rows).len() && issues_of(rows)[i] == x;
    assert(rows.contains(rows[i]));
    let j = choose|j: int| 0 <= j < b.issues.len() && b.issues[j] == rows[i];
    assert(issue_of(b.issues[j]) == x);
}

/// A search without a limit and an offset returns every card of the board that is
/// in the column and in one of the columns that the request names, has the
/// priority, the parent and the short name that it asks for and the text that it
/// looks for.
pub proof fn law_search_misses_no_card(b: BoardModel, req: SearchIssuesRequest, i: int)
    requires
        req.limit is None,
        req.offset is None,
        0 <= i < b.issues.len(),
        b.issues[i].project_id == req.project_id,
        req.status_id matches Some(s) ==> b.issues[i].status_id == s,
        req.status_ids matches Some(v) ==> v@.contains(b.issues[i].status_id),
        req.priority matches Some(p) ==> b.issues[i].priority == Some(p),
        req.parent_issue_id matches Some(p) ==> b.issues[i].parent_issue_id == Some(p),
        req.simple_id matches Some(s) ==> b.issues[i].simple_id == s@,
        req.search matches Some(q) ==> text::occurs(
            text::unicode_lower(b.issues[i].title) + " "@ + text::unicode_lower(
                match b.issues[i].description {
                    Some(d) => d,
                    None => ""@,
                },
            ),
            text::unicode_lower(q@),
        ),
    ensures
        search_answer(b, req).issues.contains(issue_of(b.issues[i])),
{
    let all = found(b, req);
    let rows = ordered_issues(b, req.project_id);
    let keep = |i: IssueModel| sought(req, i);
    let x = issue_of(b.issues[i]);
    law_list_is_complete_and_ordered(b, req.project_id);
    assert(b.issues.contains(b.issues[i]));
    assert(rows.contains(b.issues[i]));
    let j = choose|j: int| 0 <= j < rows.len() && rows[j] == b.issues[i];
    assert(issues_of(rows)[j] == x);
    lists::lemma_filter_contains(issues_of(rows), keep, x);
    assert(search_answer(b, req).issues =~= all);
}

/// A search counts every card once that is in the column and in one of the columns
/// that the request names, has the priority, the parent and the short name that it
/// asks for and the text that it looks for, whether or not it is on the page that is
/// returned; and it counts no other.
pub proof fn law_search_counts_matching_cards(b: BoardModel, req: SearchIssuesRequest)
    requires
        b.issue_ids_unique(),
        b.issues.len() <= usize::MAX,
    ensures
        search_answer(b, req).total_count == b.issues.filter(
            |r: IssueRowModel|
                {
                    &&& r.project_id == req.project_id
                    &&& req.status_id matches Some(s) ==> r.status_id == s
                    &&& req.status_ids matches Some(v) ==> v@.contains(r.status_id)
                    &&& req.priority matches Some(p) ==> r.priority == Some(p)
                    &&& req.parent_issue_id matches Some(p) ==> r.parent_issue_id == Some(p)
                    &&& req.simple_id matches Some(s) ==> r.simple_id == s@
                    &&& req.search matches Some(q) ==> text::occurs(
                        text::unicode_lower(r.title) + " "@ + text::unicode_lower(
                            match r.description {
                                Some(d) => d,
                                None => ""@,
                            },
                        ),
                        text::unicode_lower(q@),
                    )
                },
        ).len(),
{
    let wanted = |r: IssueRowModel|
        {
            &&& r.project_id == req.project_id
            &&& req.status_id matches Some(s) ==> r.status_id == s
            &&& req.status_ids matches Some(v) ==> v@.contains(r.status_id)
            &&& req.priority matches Some(p) ==> r.priority == Some(p)
            &&& req.parent_issue_id matches Some(p) ==> r.parent_issue_id == Some(p)
            &&& req.simple_id matches Some(s) ==> r.simple_id == s@
            &&& req.search matches Some(q) ==> text::occurs(
                text::unicode_lower(r.title) + " "@ + text::unicode_lower(
                    match r.description {
                        Some(d) => d,
                        None => ""@,
                    },
                ),
                text::unicode_lower(q@),
            )
        };
    let all = found(b, req);
    let kept = b.issues.filter(wanted);
    let rows = ordered_issues(b, req.project_id);
    let keep = |i: IssueModel| sought(req, i);
    let mine = issues_of(kept);
    lemma_ordered_ids_apart(b, req.project_id);
    lemma_filter_apart(issues_of(rows), keep);
    assert forall|m: int, n: int| 0 <= m < n < kept.len() implies (#[trigger] kept[m]).id != (
    #[trigger] kept[n]).id by {
        lemma_filter_rows_apart(b.issues, wanted, m, n);
    }
    assert(mine.no_duplicates()) by {
        assert forall|m: int, n: int| 0 <= m < mine.len() && 0 <= n < mine.len() && m
            != n implies mine[m] != mine[n] by {
            if m < n {
                assert(kept[m].id != kept[n].id);
            } else {
                assert(kept[n].id != kept[m].id);
            }
        }
    }
    law_list_is_complete_and_ordered(b, req.project_id);
    assert forall|x: IssueModel| all.contains(x) <==> mine.contains(x) by {
        lists::lemma_filter_contains(issues_of(rows), keep, x);
        if all.contains(x) {
            let i = choose|i: int| 0 <= i < rows.len() && issues_of(rows)[i] == x;
            assert(rows.contains(rows[i]));
            lists::lemma_filter_contains(b.issues, wanted, rows[i]);
            let j = choose|j: int| 0 <= j < kept.len() && kept[j] == rows[i];
            assert(mine[j] == x);
        }
        if mine.contains(x) {
            let i = choose|i: int| 0 <= i < kept.len() && mine[i] == x;
            assert(kept.contains(kept[i]));
            lists::lemma_filter_contains(b.issues, wanted, kept[i]);
            assert(rows.contains(kept[i]));
            let j = choose|j: int| 0 <= j < rows.len() && rows[j] == kept[i];
            assert(issues_of(rows)[j] == x);
        }
    }
    assert(all.to_set() =~= mine.to_set());
    all.unique_seq_to_set();
    mine.unique_seq_to_set();
    b.issues.lemma_filter_len(wanted);
}

/// A page of a search is the stretch of all cards found that the offset and the
/// limit cut out, in their order; how many cards were found does not depend on it.
pub proof fn law_pages_cut_up_what_is_found(
    b: BoardModel,
    whole: SearchIssuesRequest,
    req: SearchIssuesRequest,
)
    requires
        whole.limit is None,
        whole.offset is None,
        whole.project_id == req.project_id,
        whole.status_id == req.status_id,
        whole.status_ids == req.status_ids,
        whole.priority == req.priority,
        whole.parent_issue_id == req.parent_issue_id,
        whole.simple_id == req.simple_id,
        whole.search == req.search,
        b.issues.len() <= usize::MAX,
    ensures
        ({
            let all = search_answer(b, whole);
            let out = search_answer(b, req);
            let offset: int = match req.offset {
                Some(n) => if n > 0 {
                    n as int
                } else {
                    0
                },
                None => 0,
            };
            &&& all.total_count == all.issues.len()
            &&& all.limit == all.issues.len()
            &&& all.offset == 0
            &&& out.total_count == all.issues.len()
            &&& out.offset == offset
            &&& req.limit matches Some(n) ==> out.limit == if n > 0 {
                n as int
            } else {
                0
            }
            &&& req.limit is None ==> out.limit == out.total_count
            &&& out.issues.len() <= out.limit
            &&& out.issues.len() < out.limit ==> (offset + out.issues.len() == all.issues.len() || (
            out.issues.len() == 0 && offset >= all.issues.len()))
            &&& forall|k: int|
                0 <= k < out.issues.len() ==> offset + k < all.issues.len()
                    && #[trigger] out.issues[k] == all.issues[offset + k]
        }),
{
    let keep = |i: IssueModel| sought(whole, i);
    let keep2 = |i: IssueModel| sought(req, i);
    assert(keep =~= keep2);
    let rows = ordered_issues(b, req.project_id);
    order::lemma_arranged(issues_on(b, req.project_id), issue_keys(issues_on(b, req.project_id)));
    b.issues.lemma_filter_len(|r: IssueRowModel| r.project_id == req.project_id);
    issues_of(rows).lemma_filter_len(keep);
    assert(search_answer(b, whole).issues =~= found(b, whole));
}

/// The cards of a board come in a list without repetition.
proof fn lemma_ordered_ids_apart(b: BoardModel, project_id: Uuid)
    requires
        b.issue_ids_unique(),
    ensures
        issues_of(ordered_issues(b, project_id)).no_duplicates(),
{
    let keep = |r: IssueRowModel| r.project_id == project_id;
    let kept = issues_on(b, project_id);
    let keys = issue_keys(kept);
    let rows = ordered_issues(b, project_id);
    let perm = order::stable_order(keys);
    order::lemma_arranged(kept, keys);
    order::lemma_stable_order_exists(keys);
    let shown = issues_of(rows);
    assert forall|m: int, n: int| 0 <= m < shown.len() && 0 <= n < shown.len() && m
        != n implies shown[m] != shown[n] by {
        let (x, y) = if m < n {
            (m, n)
        } else {
            (n, m)
        };
        assert(order::comes_before(keys, perm[x], perm[y]));
        assert(perm[x] != perm[y]);
        assert(rows[x] == kept[perm[x]] && rows[y] == kept[perm[y]]);
        if perm[x] < perm[y] {
            lemma_filter_rows_apart(b.issues, keep, perm[x], perm[y]);
        } else {
            lemma_filter_rows_apart(b.issues, keep, perm[y], perm[x]);
        }
    }
}

/// Cards with identifiers of their own keep them when some are left out.
proof fn lemma_filter_rows_apart(
    rows: Seq<IssueRowModel>,
    keep: spec_fn(IssueRowModel) -> bool,
    m: int,
    n: int,
)
    requires
        forall|i: int, j: int|
            0 <= i < j < rows.len() ==> (#[trigger] rows[i]).id != (#[trigger] rows[j]).id,
        0 <= m < n < rows.filter(keep).len(),
    ensures
        rows.filter(keep)[m].id != rows.filter(keep)[n].id,
    decreases rows.len(),
{
    reveal(Seq::filter);
    let front = rows.drop_last();
    let kept = front.filter(keep);
    if n < kept.len() {
        lemma_filter_rows_apart(front, keep, m, n);
    } else {
        lists::lemma_filter_contains(front, keep, kept[m]);
        assert(kept.contains(kept[m]));
        let i = choose|i: int| 0 <= i < front.len() && front[i] == kept[m];
        assert(rows[i].id != rows[rows.len() - 1].id);
    }
}

/// A list without repetition has none when some items are left out.
proof fn lemma_filter_apart<A>(s: Seq<A>, keep: spec_fn(A) -> bool)
    requires
        s.no_duplicates(),
    ensures
        s.filter(keep).no_duplicates(),
    decreases s.len(),
{
    reveal(Seq::filter);
    if s.len() > 0 {
        let front = s.drop_last();
        lemma_filter_apart(front, keep);
        lists::lemma_filter_contains(front, keep, s.last());
        assert(!front.contains(s.last()));
    }
}

// ---------------------------------------------------------------------------
// The whole board
// ---------------------------------------------------------------------------
/// On a well-formed board no two cards share an identifier, no two cards of a board
/// share a number, no two cards mirror one Linear issue, every card is in a column
/// that is there, only linked cards are marked, and every linked card has a short
/// name and an address.
pub proof fn law_well_formed_board(b: BoardModel, i: int, j: int)
    requires
        b.wf(),
        0 <= i < b.issues.len(),
        0 <= j < b.issues.len(),
        i != j,
    ensures
        b.issues[i].id != b.issues[j].id,
        b.issues[i].project_id == b.issues[j].project_id ==> b.issues[i].issue_number
            != b.issues[j].issue_number,
        b.issues[i].linear_issue_id is Some ==> b.issues[i].linear_issue_id
            != b.issues[j].linear_issue_id,
        exists|k: int|
            0 <= k < b.statuses.len() && (#[trigger] b.statuses[k]).id == b.issues[i].status_id,
        b.issues[i].linear_sync_pending ==> b.issues[i].linear_issue_id is Some,
        b.issues[i].linear_issue_id is Some ==> b.issues[i].linear_issue_identifier is Some
            && b.issues[i].linear_url is Some,
        b.issue_at(b.issues[i].id) == Some(i),
{
    if i < j {
        assert(b.issues[i].id != b.issues[j].id);
    } else {
        assert(b.issues[j].id != b.issues[i].id);
    }
    let column = b.issues[i].status_id;
    assert(b.status_at(column) is Some);
    lemma_first_index(b.status_ids(), column);
    let k = b.status_at(column)->0;
    assert(b.statuses[k].id == b.status_ids()[k]);
    lemma_first_index(b.issue_ids(), b.issues[i].id);
    assert(b.issue_ids()[i] == b.issues[i].id);
    if let Some(m) = b.issue_at(b.issues[i].id) {
        assert(b.issue_ids()[m] == b.issues[m].id);
        if m < i {
            assert(b.issues[m].id != b.issues[i].id);
        } else if m > i {
            assert(b.issues[i].id != b.issues[m].id);
        }
    }
}

/// The links of a board can be listed where each of its linked cards has a short
/// name and an address.
pub proof fn law_badges_need_name_and_address(b: BoardModel, project_id: Uuid)
    ensures
        all_badged(linked_issues(b, project_id)) <==> forall|i: int|
            0 <= i < b.issues.len() && (#[trigger] b.issues[i]).project_id == project_id
                && b.issues[i].linear_issue_id is Some ==> b.issues[i].linear_issue_identifier
                is Some && b.issues[i].linear_url is Some,
{
    let rows = linked_issues(b, project_id);
    law_links_are_of_linked_cards(b, project_id);
    if all_badged(rows) {
        assert forall|i: int|
            0 <= i < b.issues.len() && (#[trigger] b.issues[i]).project_id == project_id
                && b.issues[i].linear_issue_id
                is Some implies b.issues[i].linear_issue_identifier is Some
            && b.issues[i].linear_url is Some by {
            assert(b.issues.contains(b.issues[i]));
            assert(rows.contains(b.issues[i]));
            let k = choose|k: int| 0 <= k < rows.len() && rows[k] == b.issues[i];
            assert(has_badge(rows[k]));
        }
    } else {
        let k = choose|k: int| 0 <= k < rows.len() && !has_badge(#[trigger] rows[k]);
        assert(rows.contains(rows[k]));
        let i = choose|i: int| 0 <= i < b.issues.len() && b.issues[i] == rows[k];
        assert(b.issues[i].project_id == project_id);
    }
}

/// The last position of a board is that of one of its cards, and none of its cards
/// comes after it.
pub proof fn law_no_card_comes_after_the_last(
    b: BoardModel,
    project_id: Uuid,
    slot: SortKey,
    i: int,
)
    requires
        is_last_slot(b, project_id, slot),
        0 <= i < b.issues.len(),
        b.issues[i].project_id == project_id,
    ensures
        b.issues[i].sort_order.key <= slot.key,
        exists|k: int|
            0 <= k < b.issues.len() && (#[trigger] b.issues[k]).project_id == project_id
                && b.issues[k].sort_order == slot,
{
}

/// An import tells how many cards it added, or what stopped it; it has an identifier
/// for each card.
pub proof fn law_import_counts_what_it_added(
    before: BoardModel,
    cards: Seq<ImportCardModel>,
    setting: ImportSetting,
    after: BoardModel,
    r: Result<usize, BoardError>,
)
    requires
        imported(before, cards, setting, after, r),
    ensures
        r matches Ok(n) ==> after.issues.len() == before.issues.len() + n,
        r matches Ok(_) ==> forall|k: int|
            0 <= k < cards.len() ==> after.linked((#[trigger] cards[k]).linear_issue_id),
        forall|j: int|
            0 <= j < before.issues.len() ==> #[trigger] after.issues[j] == before.issues[j],
        r is Err <==> import_progress(before, cards, setting).error is Some,
        setting.ids.len() == cards.len(),
{
    law_import_only_adds(before, cards, setting);
    if r is Ok {
        law_import_links_every_issue(before, cards, setting);
    }
    assert forall|j: int| 0 <= j < before.issues.len() implies #[trigger] after.issues[j]
        == before.issues[j] by {
        assert(after.issues.take(before.issues.len() as int)[j] == before.issues[j]);
    }
}

/// A Linear issue is mirrored where, and only where, a card carries its identifier.
pub proof fn law_mirrored_issue_is_on_a_card(b: BoardModel, linear_issue_id: Seq<char>)
    ensures
        b.linked(linear_issue_id) <==> exists|i: int|
            0 <= i < b.issues.len() && (#[trigger] b.issues[i]).linear_issue_id == Some(
                linear_issue_id,
            ),
{
}

/// An import goes card by card. One whose issue was mirrored before is passed over.
/// One whose issue has come to be mirrored meanwhile uses up a number and adds
/// nothing. Any other is added, where its number and identifier are free and its
/// column is there; what stops it else stops the import for good.
pub proof fn law_import_goes_card_by_card(
    b: BoardModel,
    cards: Seq<ImportCardModel>,
    card: ImportCardModel,
    setting: ImportSetting,
)
    ensures
        ({
            let s = import_progress(b, cards, setting);
            let t = import_progress(b, cards.push(card), setting);
            let id = setting.ids[cards.len() as int];
            &&& s.error is Some ==> t == s
            &&& b.linked(card.linear_issue_id) ==> t == s
            &&& s.error is None && !b.linked(card.linear_issue_id) ==> (s.board.project_at(
                setting.project_id,
            ) is None ==> t.error == Some(BoardError::RowNotFound) && t.board == s.board)
            &&& s.error is None && !b.linked(card.linear_issue_id) ==> (s.board.project_at(
                setting.project_id,
            ) matches Some(p) ==> {
                let counter = s.board.projects[p].issue_counter;
                let number = (counter + 1) as i64 as i32;
                let free = s.board.issue_at(id) is None && forall|j: int|
                    0 <= j < s.board.issues.len() ==> !((
                    #[trigger] s.board.issues[j]).project_id == setting.project_id
                        && s.board.issues[j].issue_number == number);
                &&& counter == i64::MAX ==> t.error == Some(BoardError::Overflow) && t.board
                    == s.board
                &&& counter < i64::MAX && s.board.organization_at(
                    s.board.projects[p].organization_id,
                ) is Some ==> {
                    &&& s.board.linked(card.linear_issue_id) ==> t.error is None && t.inserted
                        == s.inserted && t.board.issues == s.board.issues
                        && t.board.projects[p].issue_counter == counter + 1
                    &&& !s.board.linked(card.linear_issue_id) && free && s.board.status_at(
                        card.status_id,
                    ) is Some ==> t.error is None && t.inserted == s.inserted + 1
                        && t.board.issues.len() == s.board.issues.len() + 1
                        && t.board.issues.last().issue_number == number
                        && t.board.projects[p].issue_counter == counter + 1
                    &&& !s.board.linked(card.linear_issue_id) && free && s.board.status_at(
                        card.status_id,
                    ) is None ==> t.error == Some(BoardError::ForeignKeyViolation) && t.board
                        == s.board
                    &&& !s.board.linked(card.linear_issue_id) && !free ==> t.error == Some(
                        BoardError::UniqueViolation,
                    ) && t.board == s.board
                }
            })
        }),
{
    assert(cards.push(card).drop_last() =~= cards);
    let s = import_progress(b, cards, setting);
    lemma_first_index(s.board.project_ids(), setting.project_id);
}

} // verus!
