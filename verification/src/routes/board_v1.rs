//! The board: snapshots and changes.
use vstd::prelude::*;

use crate::api::{ApiError, ApiErrorModel};
use crate::board::changes::{any_wakes, issue_change, issue_changes, issue_removal, wakes};
use crate::board::issues::{creation, Issues};
use crate::board::records::{
    CreateIssueRequest, CreateProjectStatusRequest, UpdateIssueRequest,
    UpdateProjectStatusRequest, LOCAL_ORG_ID, LOCAL_USER_ID,
};
use crate::board::statuses::{
    has_cards, new_status, status_change, status_changes, status_insertion, status_removal,
    ProjectStatuses,
};
use crate::board::{Board, BoardError, BoardModel};
use crate::ids::{given_or_drawn, parsed_uuid, Uuid};
use crate::json::{text_in, Json, JsonModel};
use crate::text;
use crate::time::Timestamp;

verus! {

/// What a member of an organization may do.
#[derive(Clone, Copy, Debug, PartialEq, Eq, Structural)]
pub enum MemberRole {
    Admin,
    Member,
}

/// An organization, and what the user may do there.
#[derive(Debug, PartialEq, Eq)]
pub struct OrganizationWithRole {
    pub id: Uuid,
    pub name: String,
    pub slug: String,
    pub is_personal: bool,
    pub issue_prefix: String,
    pub created_at: Timestamp,
    pub updated_at: Timestamp,
    pub user_role: MemberRole,
}

/// What a [`OrganizationWithRole`] holds.
#[verifier::ext_equal]
pub struct OrganizationWithRoleModel {
    pub id: Uuid,
    pub name: Seq<char>,
    pub slug: Seq<char>,
    pub is_personal: bool,
    pub issue_prefix: Seq<char>,
    pub created_at: Timestamp,
    pub updated_at: Timestamp,
    pub user_role: MemberRole,
}

impl View for OrganizationWithRole {
    type V = OrganizationWithRoleModel;

    open spec fn view(&self) -> OrganizationWithRoleModel {
        OrganizationWithRoleModel {
            id: self.id,
            name: self.name@,
            slug: self.slug@,
            is_personal: self.is_personal,
            issue_prefix: self.issue_prefix@,
            created_at: self.created_at,
            updated_at: self.updated_at,
            user_role: self.user_role,
        }
    }
}

/// The single organization of a local board.
pub fn list_organizations(now: Timestamp) -> (r: Vec<OrganizationWithRole>)
    ensures
        r@.len() == 1,
        r@[0]@ == (OrganizationWithRoleModel {
            id: Uuid { bits: LOCAL_ORG_ID },
            name: "Local Board"@,
            slug: "local"@,
            is_personal: true,
            issue_prefix: "VK"@,
            created_at: now,
            updated_at: now,
            user_role: MemberRole::Admin,
        }),
{
    let mut out: Vec<OrganizationWithRole> = Vec::new();
    out.push(
        OrganizationWithRole {
            id: Uuid { bits: LOCAL_ORG_ID },
            name: "Local Board".to_owned(),
            slug: "local".to_owned(),
            is_personal: true,
            issue_prefix: "VK".to_owned(),
            created_at: now,
            updated_at: now,
            user_role: MemberRole::Admin,
        },
    );
    out
}

/// The name of the table that a path stands for: the same, but for some.
pub open spec fn table_of(segment: Seq<char>) -> Seq<char> {
    if segment == "organization_members"@ {
        "organization_member_metadata"@
    } else if segment == "user_workspaces"@ || segment == "project_workspaces"@ {
        "workspaces"@
    } else {
        segment
    }
}

/// The name of the table that a path stands for.
pub fn fallback_table(segment: &str) -> (r: String)
    ensures
        r@ == table_of(segment@),
{
    if text::same(segment, "organization_members") {
        "organization_member_metadata".to_owned()
    } else if text::same(segment, "user_workspaces") || text::same(segment, "project_workspaces") {
        "workspaces".to_owned()
    } else {
        segment.to_owned()
    }
}

/// The rows of a table, as an object whose only member is named after it.
pub fn snapshot(table: &str, rows: Json) -> (r: Json)
    ensures
        r@ == JsonModel::Object(seq![(table@, rows@)]),
{
    Json::object1(table, rows)
}

/// The answer for a table that the board does not keep: no rows.
pub fn fallback_stub(segment: &str) -> (r: Json)
    ensures
        r@ == JsonModel::Object(seq![(table_of(segment@), JsonModel::Array(Seq::empty()))]),
{
    let table = fallback_table(segment);
    let none = Json::Array(Vec::new());
    assert(none@->Array_0 =~= Seq::<JsonModel>::empty());
    snapshot(table.as_str(), none)
}

/// What a change is acknowledged with.
pub fn ack() -> (r: Json)
    ensures
        r@ == JsonModel::Object(seq![("txid"@, JsonModel::Number(text::decimal(0)))]),
{
    Json::object1("txid", Json::unsigned(0))
}

/// The identifier that an item of a bulk change names.
pub open spec fn item_id(item: JsonModel) -> Option<Uuid> {
    match text_in(item.field("id"@)) {
        Some(s) => match parsed_uuid(s) {
            Some(bits) => Some(Uuid { bits }),
            None => None,
        },
        None => None,
    }
}

/// What an item of a bulk change is: an identifier and changes, or an error.
/// `changes` is how the item reads as changes.
pub open spec fn bulk_item<T>(item: JsonModel, changes: Result<T, String>) -> Result<
    (Uuid, T),
    ApiErrorModel,
> {
    match item_id(item) {
        None => Err(ApiErrorModel::BadRequest("bulk update item missing valid `id`"@)),
        Some(id) => match changes {
            Ok(c) => Ok((id, c)),
            Err(e) => Err(ApiErrorModel::BadRequest("invalid bulk update item: "@ + e@)),
        },
    }
}

/// Splits an item of a bulk change into an identifier and changes.
pub fn split_bulk_item<T>(item: &Json, changes: Result<T, String>) -> (r: Result<
    (Uuid, T),
    ApiError,
>)
    ensures
        match r {
            Ok(p) => bulk_item(item@, changes) matches Ok(q) && q == p,
            Err(e) => bulk_item(item@, changes) matches Err(f) && f == e@,
        },
{
    let id = match item.get_text("id") {
        Some(s) => Uuid::parse_str(s),
        None => None,
    };
    match id {
        Some(id) => match changes {
            Ok(c) => Ok((id, c)),
            Err(e) => Err(
                ApiError::BadRequest(text::join("invalid bulk update item: ", e.as_str())),
            ),
        },
        None => Err(ApiError::BadRequest("bulk update item missing valid `id`".to_owned())),
    }
}

/// An error of the board as the answer to a request.
pub open spec fn board_answer(r: Result<(), ApiError>) -> Option<ApiErrorModel> {
    match r {
        Ok(_) => None,
        Err(e) => Some(e@),
    }
}

/// Creates a card, by the local user.
pub fn create_issue(board: &mut Board, req: &CreateIssueRequest, now: Timestamp) -> (r: Result<
    (),
    ApiError,
>)
    ensures
        exists|id: Uuid|
            #![trigger creation(
                old(board)@,
                *req,
                id,
                Some(Uuid { bits: LOCAL_USER_ID }),
                now,
            )]
            given_or_drawn(req.id, id) && match creation(
                old(board)@,
                *req,
                id,
                Some(Uuid { bits: LOCAL_USER_ID }),
                now,
            ) {
                Ok(b) => r is Ok && final(board)@ == b,
                Err(e) => board_answer(r) == Some(ApiErrorModel::Board(e)) && final(board)@
                    == old(board)@,
            },
{
    match Issues::create(board, req, Some(Uuid { bits: LOCAL_USER_ID }), now) {
        Ok(_) => Ok(()),
        Err(e) => Err(ApiError::Board(e)),
    }
}

/// Changes a card; says whether the mirror has to be woken.
pub fn update_issue(
    board: &mut Board,
    id: Uuid,
    req: &UpdateIssueRequest,
    now: Timestamp,
) -> (r: Result<bool, ApiError>)
    ensures
        match issue_change(old(board)@, id, *req, now) {
            Ok(b) => (r matches Ok(nudge) && nudge == wakes(old(board)@, id, *req)) && final(board)@
                == b,
            Err(e) => (r matches Err(f) && f@ == ApiErrorModel::Board(e)) && final(board)@ == old(
                board)@,
        },
{
    match Issues::update_on(board, id, req, now) {
        Ok(x) => Ok(x.1),
        Err(e) => Err(ApiError::Board(e)),
    }
}

/// Removes a card; one that is not there is removed already.
pub fn delete_issue(board: &mut Board, id: Uuid)
    ensures
        final(board)@ == issue_removal(old(board)@, id).0,
{
    Issues::delete(board, id);
}

/// Changes several cards: all of them, or none. Says whether the mirror has to be
/// woken.
pub fn bulk_update_issues(
    board: &mut Board,
    updates: &Vec<(Uuid, UpdateIssueRequest)>,
    now: Timestamp,
) -> (r: Result<bool, ApiError>)
    ensures
        match issue_changes(old(board)@, updates@, now) {
            Ok(b) => (r matches Ok(nudge) && nudge == any_wakes(old(board)@, updates@, now))
                && final(board)@ == b,
            Err(e) => (r matches Err(f) && f@ == ApiErrorModel::Board(e)) && final(board)@ == old(
                board)@,
        },
{
    match Issues::bulk_update_on(board, updates, now) {
        Ok(nudge) => Ok(nudge),
        Err(e) => Err(ApiError::Board(e)),
    }
}

/// Creates a column.
pub fn create_status(
    board: &mut Board,
    req: &CreateProjectStatusRequest,
    now: Timestamp,
) -> (r: Result<(), ApiError>)
    ensures
        exists|id: Uuid|
            given_or_drawn(req.id, id) && match status_insertion(
                old(board)@,
                #[trigger] new_status(*req, id, now),
            ) {
                Ok(b) => r is Ok && final(board)@ == b,
                Err(e) => board_answer(r) == Some(ApiErrorModel::Board(e)) && final(board)@
                    == old(board)@,
            },
{
    match ProjectStatuses::create(board, req, now) {
        Ok(_) => Ok(()),
        Err(e) => Err(ApiError::Board(e)),
    }
}

/// Changes a column.
pub fn update_status(board: &mut Board, id: Uuid, req: &UpdateProjectStatusRequest) -> (r: Result<
    (),
    ApiError,
>)
    ensures
        match status_change(old(board)@, id, *req) {
            Ok(b) => r is Ok && final(board)@ == b,
            Err(e) => board_answer(r) == Some(ApiErrorModel::Board(e)) && final(board)@ == old(
                board)@,
        },
{
    match ProjectStatuses::update(board, id, req) {
        Ok(_) => Ok(()),
        Err(e) => Err(ApiError::Board(e)),
    }
}

/// Changes several columns: all of them, or none.
pub fn bulk_update_statuses(
    board: &mut Board,
    updates: &Vec<(Uuid, UpdateProjectStatusRequest)>,
) -> (r: Result<(), ApiError>)
    ensures
        match status_changes(old(board)@, updates@) {
            Ok(b) => r is Ok && final(board)@ == b,
            Err(e) => board_answer(r) == Some(ApiErrorModel::Board(e)) && final(board)@ == old(
                board)@,
        },
{
    match ProjectStatuses::bulk_update(board, updates) {
        Ok(_) => Ok(()),
        Err(e) => Err(ApiError::Board(e)),
    }
}

/// What the removal of a column is answered with: a column that has cards is in
/// conflict with them.
pub open spec fn status_removal_fault(b: BoardModel, id: Uuid) -> Option<ApiErrorModel> {
    if b.status_at(id) is Some && has_cards(b, id) {
        Some(
            ApiErrorModel::Conflict(
                "cannot delete a column that still has cards; move or delete them first"@,
            ),
        )
    } else {
        None
    }
}

/// Removes a column that has no cards.
pub fn delete_status(board: &mut Board, id: Uuid) -> (r: Result<(), ApiError>)
    ensures
        board_answer(r) == status_removal_fault(old(board)@, id),
        match status_removal(old(board)@, id) {
            Ok(b) => final(board)@ == b,
            Err(_) => final(board)@ == old(board)@,
        },
{
    match ProjectStatuses::delete(board, id) {
        Ok(_) => Ok(()),
        Err(e) => if e == BoardError::ForeignKeyViolation {
            Err(
                ApiError::Conflict(
                    "cannot delete a column that still has cards; move or delete them first".to_owned(),
                ),
            )
        } else {
            Err(ApiError::Board(e))
        },
    }
}

} // verus!
