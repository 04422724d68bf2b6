//! Boards and cards, as the rest of the application asks for them.
use vstd::prelude::*;

use crate::api::{ApiError, ApiErrorModel};
use crate::board::changes::{issue_change, wakes};
use crate::board::issues::{creation, issue_of, Issues};
use crate::board::projects::{project_of, variant_of, with_variant, BoardProjects};
use crate::board::records::{
    CreateIssueRequest, Issue, Project, UpdateIssueRequest, LOCAL_USER_ID,
};
use crate::board::{Board, BoardError};
use crate::ids::{given_or_drawn, Uuid};
use crate::text;
use crate::time::Timestamp;

verus! {

/// The executor variant that a board defaults to.
#[derive(Debug, PartialEq, Eq)]
pub struct ProjectClaudeVariantView {
    pub variant: Option<String>,
}

/// What a [`ProjectClaudeVariantView`] holds.
#[verifier::ext_equal]
pub struct ProjectClaudeVariantViewModel {
    pub variant: Option<Seq<char>>,
}

impl View for ProjectClaudeVariantView {
    type V = ProjectClaudeVariantViewModel;

    open spec fn view(&self) -> ProjectClaudeVariantViewModel {
        ProjectClaudeVariantViewModel {
            variant: text::opt_text(self.variant),
        }
    }
}

/// The executor variant that a board is to default to; `None` clears it.
#[derive(Debug, PartialEq, Eq)]
pub struct SetClaudeVariantBody {
    pub variant: Option<String>,
}

/// A card that was created or changed. There is one writer, so the number of the
/// transaction says nothing.
#[derive(Debug)]
pub struct MutationResponse {
    pub data: Issue,
    pub txid: i64,
}

/// Wraps a card that was created or changed.
pub fn local_mutation(data: Issue) -> (r: MutationResponse)
    ensures
        r.data == data,
        r.txid == 0,
{
    MutationResponse { data, txid: 0 }
}

/// A card, which has to be there.
pub fn get_issue(board: &Board, id: Uuid) -> (r: Result<Issue, ApiError>)
    ensures
        match board@.issue_at(id) {
            Some(i) => r matches Ok(issue) && issue@ == issue_of(board@.issues[i]),
            None => r matches Err(e) && e@ == ApiErrorModel::Board(BoardError::RowNotFound),
        },
{
    match Issues::get(board, id) {
        Some(issue) => Ok(issue),
        None => Err(ApiError::Board(BoardError::RowNotFound)),
    }
}

/// A board, which has to be there.
pub fn get_remote_project(board: &Board, id: Uuid) -> (r: Result<Project, ApiError>)
    ensures
        match board@.project_at(id) {
            Some(i) => r matches Ok(p) && p@ == project_of(board@.projects[i]),
            None => r matches Err(e) && e@ == ApiErrorModel::Board(BoardError::RowNotFound),
        },
{
    match BoardProjects::get(board, id) {
        Some(p) => Ok(p),
        None => Err(ApiError::Board(BoardError::RowNotFound)),
    }
}

/// Creates a card, by the local user.
pub fn create_issue(board: &mut Board, req: &CreateIssueRequest, now: Timestamp) -> (r: Result<
    MutationResponse,
    ApiError,
>)
    ensures
        exists|id: Uuid|
            #![trigger creation(
                old(board)@,
                *req,
                id,
                Some(Uuid { bits: LOCAL_USER_ID }),
                now,
            )]
            given_or_drawn(req.id, id) && match creation(
                old(board)@,
                *req,
                id,
                Some(Uuid { bits: LOCAL_USER_ID }),
                now,
            ) {
                Ok(b) => {
                    &&& r matches Ok(m)
                    &&& m.txid == 0
                    &&& m.data@ == issue_of(b.issues.last())
                    &&& final(board)@ == b
                },
                Err(e) => (r matches Err(f) && f@ == ApiErrorModel::Board(e)) && final(board)@
                    == old(board)@,
            },
{
    match Issues::create(board, req, Some(Uuid { bits: LOCAL_USER_ID }), now) {
        Ok(issue) => Ok(local_mutation(issue)),
        Err(e) => Err(ApiError::Board(e)),
    }
}

/// Changes a card; says whether the mirror has to be woken.
pub fn update_issue(
    board: &mut Board,
    id: Uuid,
    req: &UpdateIssueRequest,
    now: Timestamp,
) -> (r: Result<(MutationResponse, bool), ApiError>)
    ensures
        match issue_change(old(board)@, id, *req, now) {
            Ok(b) => {
                &&& r matches Ok(m)
                &&& m.0.txid == 0
                &&& old(board)@.issue_at(id) matches Some(i) && m.0.data@ == issue_of(b.issues[i])
                &&& m.1 == wakes(old(board)@, id, *req)
                &&& final(board)@ == b
            },
            Err(e) => (r matches Err(f) && f@ == ApiErrorModel::Board(e)) && final(board)@ == old(
                board)@,
        },
{
    match Issues::update_on(board, id, req, now) {
        Ok(x) => Ok((local_mutation(x.0), x.1)),
        Err(e) => Err(ApiError::Board(e)),
    }
}

/// The executor variant that a board defaults to.
pub fn get_project_claude_variant(board: &Board, project_id: Uuid) -> (r: ProjectClaudeVariantView)
    ensures
        r@.variant == variant_of(board@, project_id),
{
    ProjectClaudeVariantView { variant: BoardProjects::claude_account_variant(board, project_id) }
}

/// Lets a board default to an executor variant, or to none. `key` is the canonical
/// key of the variant and `known` whether a profile has it; a variant that none has
/// is refused, lest agents fail to start later. Neither is looked at where the
/// default is cleared.
pub fn set_project_claude_variant(
    board: &mut Board,
    project_id: Uuid,
    body: &SetClaudeVariantBody,
    key: String,
    known: bool,
) -> (r: Result<ProjectClaudeVariantView, ApiError>)
    ensures
        match text::opt_text(body.variant) {
            Some(raw) => if known {
                (r matches Ok(v) && v@.variant == Some(key@)) && final(board)@ == with_variant(
                    old(board)@,
                    project_id,
                    Some(key@),
                )
            } else {
                (r matches Err(e) && e@ == ApiErrorModel::BadRequest(
                    "unknown variant '"@ + raw
                        + "' — not a CLAUDE_CODE profile variant"@,
                )) && final(board)@ == old(board)@
            },
            None => (r matches Ok(v) && v@.variant is None) && final(board)@ == with_variant(
                old(board)@,
                project_id,
                None,
            ),
        },
{
    let variant = match &body.variant {
        Some(raw) => {
            if !known {
                return Err(
                    ApiError::BadRequest(
                        text::join3(
                            "unknown variant '",
                            raw.as_str(),
                            "' — not a CLAUDE_CODE profile variant",
                        ),
                    ),
                );
            }
            Some(key)
        },
        None => None,
    };
    let shown = text::copy_option(&variant);
    BoardProjects::set_claude_account_variant(board, project_id, variant);
    Ok(ProjectClaudeVariantView { variant: shown })
}

} // verus!
