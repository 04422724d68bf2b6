//! The tables of the board, and the shapes that it is read in.
use vstd::prelude::*;

use crate::ids::Uuid;
use crate::json::{value_model, JsonModel};
use crate::text;
use crate::time::Timestamp;

verus! {

/// The identifier of the single organization of a local board.
pub const LOCAL_ORG_ID: u128 = 1;

/// The identifier of the single user of a local board.
pub const LOCAL_USER_ID: u128 = 2;

/// A fractional position, by an integer that orders as the positions do.
#[derive(Clone, Copy, Debug, PartialEq, Eq, Structural)]
pub struct SortKey {
    pub key: i64,
}

/// How urgent a card is.
#[derive(Clone, Copy, Debug, PartialEq, Eq, Structural)]
pub enum IssuePriority {
    Urgent,
    High,
    Medium,
    Low,
}

/// Where a pull request stands.
#[derive(Clone, Copy, Debug, PartialEq, Eq, Structural)]
pub enum MergeStatus {
    Open,
    Merged,
    Closed,
    Unknown,
}

/// What the checks of a pull request amount to.
#[derive(Clone, Copy, Debug, PartialEq, Eq, Structural)]
pub enum CheckStatus {
    Pending,
    Passing,
    Failing,
    NoChecks,
}

// ---------------------------------------------------------------------------
// Rows
// ---------------------------------------------------------------------------
/// An organization: the owner of boards, whose prefix its card numbers carry.
#[derive(Debug, PartialEq, Eq)]
pub struct Organization {
    pub id: Uuid,
    pub issue_prefix: String,
}

/// What a [`Organization`] holds.
#[verifier::ext_equal]
pub struct OrganizationModel {
    pub id: Uuid,
    pub issue_prefix: Seq<char>,
}

impl View for Organization {
    type V = OrganizationModel;

    open spec fn view(&self) -> OrganizationModel {
        OrganizationModel {
            id: self.id,
            issue_prefix: self.issue_prefix@,
        }
    }
}

/// A board.
#[derive(Debug, PartialEq, Eq)]
pub struct ProjectRow {
    pub id: Uuid,
    pub organization_id: Uuid,
    pub name: String,
    pub color: String,
    pub sort_order: i32,
    /// The number of the last card that was created on the board.
    pub issue_counter: i64,
    /// The Linear account that the board is bound to.
    pub linear_account_key: Option<String>,
    /// The executor variant that the board defaults to.
    pub claude_account_variant: Option<String>,
    pub created_at: Timestamp,
    pub updated_at: Timestamp,
}

/// What a [`ProjectRow`] holds.
#[verifier::ext_equal]
pub struct ProjectRowModel {
    pub id: Uuid,
    pub organization_id: Uuid,
    pub name: Seq<char>,
    pub color: Seq<char>,
    pub sort_order: i32,
    pub issue_counter: i64,
    pub linear_account_key: Option<Seq<char>>,
    pub claude_account_variant: Option<Seq<char>>,
    pub created_at: Timestamp,
    pub updated_at: Timestamp,
}

impl View for ProjectRow {
    type V = ProjectRowModel;

    open spec fn view(&self) -> ProjectRowModel {
        ProjectRowModel {
            id: self.id,
            organization_id: self.organization_id,
            name: self.name@,
            color: self.color@,
            sort_order: self.sort_order,
            issue_counter: self.issue_counter,
            linear_account_key: text::opt_text(self.linear_account_key),
            claude_account_variant: text::opt_text(self.claude_account_variant),
            created_at: self.created_at,
            updated_at: self.updated_at,
        }
    }
}

impl Clone for ProjectRow {
    fn clone(&self) -> (r: ProjectRow)
        ensures
            r@ == self@,
    {
        ProjectRow {
            id: self.id,
            organization_id: self.organization_id,
            name: self.name.clone(),
            color: self.color.clone(),
            sort_order: self.sort_order,
            issue_counter: self.issue_counter,
            linear_account_key: text::copy_option(&self.linear_account_key),
            claude_account_variant: text::copy_option(&self.claude_account_variant),
            created_at: self.created_at,
            updated_at: self.updated_at,
        }
    }
}

/// A column of a board.
#[derive(Debug, PartialEq, Eq)]
pub struct ProjectStatus {
    pub id: Uuid,
    pub project_id: Uuid,
    pub name: String,
    pub color: String,
    pub sort_order: i32,
    pub hidden: bool,
    pub created_at: Timestamp,
}

/// What a [`ProjectStatus`] holds.
#[verifier::ext_equal]
pub struct ProjectStatusModel {
    pub id: Uuid,
    pub project_id: Uuid,
    pub name: Seq<char>,
    pub color: Seq<char>,
    pub sort_order: i32,
    pub hidden: bool,
    pub created_at: Timestamp,
}

impl View for ProjectStatus {
    type V = ProjectStatusModel;

    open spec fn view(&self) -> ProjectStatusModel {
        ProjectStatusModel {
            id: self.id,
            project_id: self.project_id,
            name: self.name@,
            color: self.color@,
            sort_order: self.sort_order,
            hidden: self.hidden,
            created_at: self.created_at,
        }
    }
}

impl Clone for ProjectStatus {
    fn clone(&self) -> (r: ProjectStatus)
        ensures
            r@ == self@,
    {
        ProjectStatus {
            id: self.id,
            project_id: self.project_id,
            name: self.name.clone(),
            color: self.color.clone(),
            sort_order: self.sort_order,
            hidden: self.hidden,
            created_at: self.created_at,
        }
    }
}

/// A card.
#[derive(Debug, PartialEq, Eq)]
pub struct IssueRow {
    pub id: Uuid,
    pub project_id: Uuid,
    pub issue_number: i32,
    pub simple_id: String,
    pub status_id: Uuid,
    pub title: String,
    pub description: Option<String>,
    pub priority: Option<IssuePriority>,
    pub start_date: Option<Timestamp>,
    pub target_date: Option<Timestamp>,
    pub completed_at: Option<Timestamp>,
    pub sort_order: SortKey,
    pub parent_issue_id: Option<Uuid>,
    pub parent_issue_sort_order: Option<SortKey>,
    /// A JSON document, as text.
    pub extension_metadata: String,
    pub creator_user_id: Option<Uuid>,
    pub created_at: Timestamp,
    pub updated_at: Timestamp,
    /// The Linear issue that the card mirrors.
    pub linear_issue_id: Option<String>,
    pub linear_issue_identifier: Option<String>,
    pub linear_url: Option<String>,
    /// The Linear state that was last written or seen.
    pub linear_state_id: Option<String>,
    /// Whether the column has yet to be written to Linear.
    pub linear_sync_pending: bool,
}

/// What a [`IssueRow`] holds.
#[verifier::ext_equal]
pub struct IssueRowModel {
    pub id: Uuid,
    pub project_id: Uuid,
    pub issue_number: i32,
    pub simple_id: Seq<char>,
    pub status_id: Uuid,
    pub title: Seq<char>,
    pub description: Option<Seq<char>>,
    pub priority: Option<IssuePriority>,
    pub start_date: Option<Timestamp>,
    pub target_date: Option<Timestamp>,
    pub completed_at: Option<Timestamp>,
    pub sort_order: SortKey,
    pub parent_issue_id: Option<Uuid>,
    pub parent_issue_sort_order: Option<SortKey>,
    pub extension_metadata: Seq<char>,
    pub creator_user_id: Option<Uuid>,
    pub created_at: Timestamp,
    pub updated_at: Timestamp,
    pub linear_issue_id: Option<Seq<char>>,
    pub linear_issue_identifier: Option<Seq<char>>,
    pub linear_url: Option<Seq<char>>,
    pub linear_state_id: Option<Seq<char>>,
    pub linear_sync_pending: bool,
}

impl View for IssueRow {
    type V = IssueRowModel;

    open spec fn view(&self) -> IssueRowModel {
        IssueRowModel {
            id: self.id,
            project_id: self.project_id,
            issue_number: self.issue_number,
            simple_id: self.simple_id@,
            status_id: self.status_id,
            title: self.title@,
            description: text::opt_text(self.description),
            priority: self.priority,
            start_date: self.start_date,
            target_date: self.target_date,
            completed_at: self.completed_at,
            sort_order: self.sort_order,
            parent_issue_id: self.parent_issue_id,
            parent_issue_sort_order: self.parent_issue_sort_order,
            extension_metadata: self.extension_metadata@,
            creator_user_id: self.creator_user_id,
            created_at: self.created_at,
            updated_at: self.updated_at,
            linear_issue_id: text::opt_text(self.linear_issue_id),
            linear_issue_identifier: text::opt_text(self.linear_issue_identifier),
            linear_url: text::opt_text(self.linear_url),
            linear_state_id: text::opt_text(self.linear_state_id),
            linear_sync_pending: self.linear_sync_pending,
        }
    }
}

impl Clone for IssueRow {
    fn clone(&self) -> (r: IssueRow)
        ensures
            r@ == self@,
    {
        IssueRow {
            id: self.id,
            project_id: self.project_id,
            issue_number: self.issue_number,
            simple_id: self.simple_id.clone(),
            status_id: self.status_id,
            title: self.title.clone(),
            description: text::copy_option(&self.description),
            priority: self.priority,
            start_date: self.start_date,
            target_date: self.target_date,
            completed_at: self.completed_at,
            sort_order: self.sort_order,
            parent_issue_id: self.parent_issue_id,
            parent_issue_sort_order: self.parent_issue_sort_order,
            extension_metadata: self.extension_metadata.clone(),
            creator_user_id: self.creator_user_id,
            created_at: self.created_at,
            updated_at: self.updated_at,
            linear_issue_id: text::copy_option(&self.linear_issue_id),
            linear_issue_identifier: text::copy_option(&self.linear_issue_identifier),
            linear_url: text::copy_option(&self.linear_url),
            linear_state_id: text::copy_option(&self.linear_state_id),
            linear_sync_pending: self.linear_sync_pending,
        }
    }
}

/// A workspace, which may belong to a card.
#[derive(Debug, PartialEq, Eq)]
pub struct WorkspaceRow {
    pub id: Uuid,
    pub issue_id: Option<Uuid>,
    pub name: Option<String>,
    pub archived: bool,
    pub created_at: Timestamp,
    pub updated_at: Timestamp,
}

/// What a [`WorkspaceRow`] holds.
#[verifier::ext_equal]
pub struct WorkspaceRowModel {
    pub id: Uuid,
    pub issue_id: Option<Uuid>,
    pub name: Option<Seq<char>>,
    pub archived: bool,
    pub created_at: Timestamp,
    pub updated_at: Timestamp,
}

impl View for WorkspaceRow {
    type V = WorkspaceRowModel;

    open spec fn view(&self) -> WorkspaceRowModel {
        WorkspaceRowModel {
            id: self.id,
            issue_id: self.issue_id,
            name: text::opt_text(self.name),
            archived: self.archived,
            created_at: self.created_at,
            updated_at: self.updated_at,
        }
    }
}

/// A pull request, which may belong to a workspace.
#[derive(Debug, PartialEq, Eq)]
pub struct PullRequestRow {
    pub id: String,
    pub workspace_id: Option<Uuid>,
    pub pr_url: String,
    pub pr_number: i64,
    pub pr_status: MergeStatus,
    pub merged_at: Option<Timestamp>,
    pub merge_commit_sha: Option<String>,
    pub target_branch_name: String,
    pub created_at: Timestamp,
    pub updated_at: Timestamp,
    pub check_status: Option<CheckStatus>,
}

/// What a [`PullRequestRow`] holds.
#[verifier::ext_equal]
pub struct PullRequestRowModel {
    pub id: Seq<char>,
    pub workspace_id: Option<Uuid>,
    pub pr_url: Seq<char>,
    pub pr_number: i64,
    pub pr_status: MergeStatus,
    pub merged_at: Option<Timestamp>,
    pub merge_commit_sha: Option<Seq<char>>,
    pub target_branch_name: Seq<char>,
    pub created_at: Timestamp,
    pub updated_at: Timestamp,
    pub check_status: Option<CheckStatus>,
}

impl View for PullRequestRow {
    type V = PullRequestRowModel;

    open spec fn view(&self) -> PullRequestRowModel {
        PullRequestRowModel {
            id: self.id@,
            workspace_id: self.workspace_id,
            pr_url: self.pr_url@,
            pr_number: self.pr_number,
            pr_status: self.pr_status,
            merged_at: self.merged_at,
            merge_commit_sha: text::opt_text(self.merge_commit_sha),
            target_branch_name: self.target_branch_name@,
            created_at: self.created_at,
            updated_at: self.updated_at,
            check_status: self.check_status,
        }
    }
}

// ---------------------------------------------------------------------------
// Shapes
// ---------------------------------------------------------------------------
/// A board, as callers see it.
#[derive(Debug, PartialEq, Eq)]
pub struct Project {
    pub id: Uuid,
    pub organization_id: Uuid,
    pub name: String,
    pub color: String,
    pub sort_order: i32,
    pub created_at: Timestamp,
    pub updated_at: Timestamp,
}

/// What a [`Project`] holds.
#[verifier::ext_equal]
pub struct ProjectModel {
    pub id: Uuid,
    pub organization_id: Uuid,
    pub name: Seq<char>,
    pub color: Seq<char>,
    pub sort_order: i32,
    pub created_at: Timestamp,
    pub updated_at: Timestamp,
}

impl View for Project {
    type V = ProjectModel;

    open spec fn view(&self) -> ProjectModel {
        ProjectModel {
            id: self.id,
            organization_id: self.organization_id,
            name: self.name@,
            color: self.color@,
            sort_order: self.sort_order,
            created_at: self.created_at,
            updated_at: self.updated_at,
        }
    }
}

/// A card, as callers see it: its metadata is a JSON document.
#[derive(Debug, PartialEq, Eq)]
pub struct Issue {
    pub id: Uuid,
    pub project_id: Uuid,
    pub issue_number: i32,
    pub simple_id: String,
    pub status_id: Uuid,
    pub title: String,
    pub description: Option<String>,
    pub priority: Option<IssuePriority>,
    pub start_date: Option<Timestamp>,
    pub target_date: Option<Timestamp>,
    pub completed_at: Option<Timestamp>,
    pub sort_order: SortKey,
    pub parent_issue_id: Option<Uuid>,
    pub parent_issue_sort_order: Option<SortKey>,
    pub extension_metadata: serde_json::Value,
    pub creator_user_id: Option<Uuid>,
    pub created_at: Timestamp,
    pub updated_at: Timestamp,
}

/// What a [`Issue`] holds.
#[verifier::ext_equal]
pub struct IssueModel {
    pub id: Uuid,
    pub project_id: Uuid,
    pub issue_number: i32,
    pub simple_id: Seq<char>,
    pub status_id: Uuid,
    pub title: Seq<char>,
    pub description: Option<Seq<char>>,
    pub priority: Option<IssuePriority>,
    pub start_date: Option<Timestamp>,
    pub target_date: Option<Timestamp>,
    pub completed_at: Option<Timestamp>,
    pub sort_order: SortKey,
    pub parent_issue_id: Option<Uuid>,
    pub parent_issue_sort_order: Option<SortKey>,
    pub extension_metadata: JsonModel,
    pub creator_user_id: Option<Uuid>,
    pub created_at: Timestamp,
    pub updated_at: Timestamp,
}

impl View for Issue {
    type V = IssueModel;

    open spec fn view(&self) -> IssueModel {
        IssueModel {
            id: self.id,
            project_id: self.project_id,
            issue_number: self.issue_number,
            simple_id: self.simple_id@,
            status_id: self.status_id,
            title: self.title@,
            description: text::opt_text(self.description),
            priority: self.priority,
            start_date: self.start_date,
            target_date: self.target_date,
            completed_at: self.completed_at,
            sort_order: self.sort_order,
            parent_issue_id: self.parent_issue_id,
            parent_issue_sort_order: self.parent_issue_sort_order,
            extension_metadata: value_model(self.extension_metadata),
            creator_user_id: self.creator_user_id,
            created_at: self.created_at,
            updated_at: self.updated_at,
        }
    }
}

/// A page of cards, and how many there are in all.
#[derive(Debug, PartialEq, Eq)]
pub struct ListIssuesResponse {
    pub issues: Vec<Issue>,
    pub total_count: usize,
    pub limit: usize,
    pub offset: usize,
}

/// What a [`ListIssuesResponse`] holds.
#[verifier::ext_equal]
pub struct ListIssuesResponseModel {
    pub issues: Seq<IssueModel>,
    pub total_count: usize,
    pub limit: usize,
    pub offset: usize,
}

impl View for ListIssuesResponse {
    type V = ListIssuesResponseModel;

    open spec fn view(&self) -> ListIssuesResponseModel {
        ListIssuesResponseModel {
            issues: self.issues@.map_values(|x: Issue| x@),
            total_count: self.total_count,
            limit: self.limit,
            offset: self.offset,
        }
    }
}

/// The Linear link of a card, for its badge.
#[derive(Debug, PartialEq, Eq)]
pub struct LinearLinkRow {
    pub issue_id: Uuid,
    pub linear_issue_identifier: String,
    pub linear_url: String,
    /// `1` while a change of column waits to be written to Linear.
    pub linear_sync_pending: i64,
}

/// What a [`LinearLinkRow`] holds.
#[verifier::ext_equal]
pub struct LinearLinkRowModel {
    pub issue_id: Uuid,
    pub linear_issue_identifier: Seq<char>,
    pub linear_url: Seq<char>,
    pub linear_sync_pending: i64,
}

impl View for LinearLinkRow {
    type V = LinearLinkRowModel;

    open spec fn view(&self) -> LinearLinkRowModel {
        LinearLinkRowModel {
            issue_id: self.issue_id,
            linear_issue_identifier: self.linear_issue_identifier@,
            linear_url: self.linear_url@,
            linear_sync_pending: self.linear_sync_pending,
        }
    }
}

impl Clone for LinearLinkRow {
    fn clone(&self) -> (r: LinearLinkRow)
        ensures
            r@ == self@,
    {
        LinearLinkRow {
            issue_id: self.issue_id,
            linear_issue_identifier: self.linear_issue_identifier.clone(),
            linear_url: self.linear_url.clone(),
            linear_sync_pending: self.linear_sync_pending,
        }
    }
}

/// A card whose column has yet to be written to Linear, with the account that its
/// board is bound to.
#[derive(Debug, PartialEq, Eq)]
pub struct PendingLinearSync {
    pub id: Uuid,
    pub status_id: Uuid,
    pub linear_issue_id: String,
    /// `None` where the board is not bound to an account.
    pub linear_account_key: Option<String>,
}

/// What a [`PendingLinearSync`] holds.
#[verifier::ext_equal]
pub struct PendingLinearSyncModel {
    pub id: Uuid,
    pub status_id: Uuid,
    pub linear_issue_id: Seq<char>,
    pub linear_account_key: Option<Seq<char>>,
}

impl View for PendingLinearSync {
    type V = PendingLinearSyncModel;

    open spec fn view(&self) -> PendingLinearSyncModel {
        PendingLinearSyncModel {
            id: self.id,
            status_id: self.status_id,
            linear_issue_id: self.linear_issue_id@,
            linear_account_key: text::opt_text(self.linear_account_key),
        }
    }
}

impl Clone for PendingLinearSync {
    fn clone(&self) -> (r: PendingLinearSync)
        ensures
            r@ == self@,
    {
        PendingLinearSync {
            id: self.id,
            status_id: self.status_id,
            linear_issue_id: self.linear_issue_id.clone(),
            linear_account_key: text::copy_option(&self.linear_account_key),
        }
    }
}

/// A Linear issue that is to become a card.
#[derive(Debug, PartialEq, Eq)]
pub struct ImportCard {
    pub linear_issue_id: String,
    pub linear_issue_identifier: String,
    pub linear_url: String,
    pub title: String,
    pub linear_state_id: Option<String>,
    /// The column that the card lands in.
    pub status_id: Uuid,
}

/// What a [`ImportCard`] holds.
#[verifier::ext_equal]
pub struct ImportCardModel {
    pub linear_issue_id: Seq<char>,
    pub linear_issue_identifier: Seq<char>,
    pub linear_url: Seq<char>,
    pub title: Seq<char>,
    pub linear_state_id: Option<Seq<char>>,
    pub status_id: Uuid,
}

impl View for ImportCard {
    type V = ImportCardModel;

    open spec fn view(&self) -> ImportCardModel {
        ImportCardModel {
            linear_issue_id: self.linear_issue_id@,
            linear_issue_identifier: self.linear_issue_identifier@,
            linear_url: self.linear_url@,
            title: self.title@,
            linear_state_id: text::opt_text(self.linear_state_id),
            status_id: self.status_id,
        }
    }
}

impl Clone for ImportCard {
    fn clone(&self) -> (r: ImportCard)
        ensures
            r@ == self@,
    {
        ImportCard {
            linear_issue_id: self.linear_issue_id.clone(),
            linear_issue_identifier: self.linear_issue_identifier.clone(),
            linear_url: self.linear_url.clone(),
            title: self.title.clone(),
            linear_state_id: text::copy_option(&self.linear_state_id),
            status_id: self.status_id,
        }
    }
}

/// A pull request with the card that it belongs to.
#[derive(Debug, PartialEq, Eq)]
pub struct BoardPullRequestRow {
    pub id: String,
    pub url: String,
    pub number: i64,
    /// One of `open`, `merged` and `closed`.
    pub status: &'static str,
    pub merged_at: Option<Timestamp>,
    pub merge_commit_sha: Option<String>,
    pub target_branch_name: String,
    pub project_id: Uuid,
    pub issue_id: Uuid,
    pub workspace_id: Option<Uuid>,
    pub created_at: Timestamp,
    pub updated_at: Timestamp,
    pub check_status: Option<CheckStatus>,
}

/// What a [`BoardPullRequestRow`] holds.
#[verifier::ext_equal]
pub struct BoardPullRequestRowModel {
    pub id: Seq<char>,
    pub url: Seq<char>,
    pub number: i64,
    pub status: Seq<char>,
    pub merged_at: Option<Timestamp>,
    pub merge_commit_sha: Option<Seq<char>>,
    pub target_branch_name: Seq<char>,
    pub project_id: Uuid,
    pub issue_id: Uuid,
    pub workspace_id: Option<Uuid>,
    pub created_at: Timestamp,
    pub updated_at: Timestamp,
    pub check_status: Option<CheckStatus>,
}

impl View for BoardPullRequestRow {
    type V = BoardPullRequestRowModel;

    open spec fn view(&self) -> BoardPullRequestRowModel {
        BoardPullRequestRowModel {
            id: self.id@,
            url: self.url@,
            number: self.number,
            status: self.status@,
            merged_at: self.merged_at,
            merge_commit_sha: text::opt_text(self.merge_commit_sha),
            target_branch_name: self.target_branch_name@,
            project_id: self.project_id,
            issue_id: self.issue_id,
            workspace_id: self.workspace_id,
            created_at: self.created_at,
            updated_at: self.updated_at,
            check_status: self.check_status,
        }
    }
}

/// The join of a pull request and its card. Its `id` is that of the pull request:
/// a pull request belongs to one card, while a card may have several.
#[derive(Debug, PartialEq, Eq)]
pub struct BoardPullRequestIssueRow {
    pub id: String,
    pub pull_request_id: String,
    pub issue_id: Uuid,
}

/// What a [`BoardPullRequestIssueRow`] holds.
#[verifier::ext_equal]
pub struct BoardPullRequestIssueRowModel {
    pub id: Seq<char>,
    pub pull_request_id: Seq<char>,
    pub issue_id: Uuid,
}

impl View for BoardPullRequestIssueRow {
    type V = BoardPullRequestIssueRowModel;

    open spec fn view(&self) -> BoardPullRequestIssueRowModel {
        BoardPullRequestIssueRowModel {
            id: self.id@,
            pull_request_id: self.pull_request_id@,
            issue_id: self.issue_id,
        }
    }
}

/// A workspace with the card that it belongs to. A local workspace has one
/// identity, so `id` and `local_workspace_id` are the same; nothing is known of its
/// diff.
#[derive(Debug, PartialEq, Eq)]
pub struct BoardWorkspaceRow {
    pub id: Uuid,
    pub project_id: Uuid,
    pub owner_user_id: Uuid,
    pub issue_id: Uuid,
    pub local_workspace_id: Uuid,
    pub name: Option<String>,
    pub archived: bool,
    pub files_changed: Option<i64>,
    pub lines_added: Option<i64>,
    pub lines_removed: Option<i64>,
    pub created_at: Timestamp,
    pub updated_at: Timestamp,
}

/// What a [`BoardWorkspaceRow`] holds.
#[verifier::ext_equal]
pub struct BoardWorkspaceRowModel {
    pub id: Uuid,
    pub project_id: Uuid,
    pub owner_user_id: Uuid,
    pub issue_id: Uuid,
    pub local_workspace_id: Uuid,
    pub name: Option<Seq<char>>,
    pub archived: bool,
    pub files_changed: Option<i64>,
    pub lines_added: Option<i64>,
    pub lines_removed: Option<i64>,
    pub created_at: Timestamp,
    pub updated_at: Timestamp,
}

impl View for BoardWorkspaceRow {
    type V = BoardWorkspaceRowModel;

    open spec fn view(&self) -> BoardWorkspaceRowModel {
        BoardWorkspaceRowModel {
            id: self.id,
            project_id: self.project_id,
            owner_user_id: self.owner_user_id,
            issue_id: self.issue_id,
            local_workspace_id: self.local_workspace_id,
            name: text::opt_text(self.name),
            archived: self.archived,
            files_changed: self.files_changed,
            lines_added: self.lines_added,
            lines_removed: self.lines_removed,
            created_at: self.created_at,
            updated_at: self.updated_at,
        }
    }
}

// ---------------------------------------------------------------------------
// Requests
// ---------------------------------------------------------------------------
/// What a new board is made from. The organization in it is not looked at: a local
/// board belongs to the local one.
#[derive(Debug, PartialEq, Eq)]
pub struct CreateProjectRequest {
    pub id: Option<Uuid>,
    pub organization_id: Uuid,
    pub name: String,
    pub color: String,
}

/// Changes to a board; what is absent stays.
#[derive(Debug, PartialEq, Eq)]
pub struct UpdateProjectRequest {
    pub name: Option<String>,
    pub color: Option<String>,
    pub sort_order: Option<i32>,
}

/// What a new column is made from.
#[derive(Debug, PartialEq, Eq)]
pub struct CreateProjectStatusRequest {
    pub id: Option<Uuid>,
    pub project_id: Uuid,
    pub name: String,
    pub color: String,
    pub sort_order: i32,
    pub hidden: bool,
}

/// Changes to a column; what is absent stays.
#[derive(Debug, PartialEq, Eq)]
pub struct UpdateProjectStatusRequest {
    pub name: Option<String>,
    pub color: Option<String>,
    pub sort_order: Option<i32>,
    pub hidden: Option<bool>,
}

/// What a new card is made from.
#[derive(Debug, PartialEq, Eq)]
pub struct CreateIssueRequest {
    pub id: Option<Uuid>,
    pub project_id: Uuid,
    pub status_id: Uuid,
    pub title: String,
    pub description: Option<String>,
    pub priority: Option<IssuePriority>,
    pub start_date: Option<Timestamp>,
    pub target_date: Option<Timestamp>,
    pub completed_at: Option<Timestamp>,
    pub sort_order: SortKey,
    pub parent_issue_id: Option<Uuid>,
    pub parent_issue_sort_order: Option<SortKey>,
    pub extension_metadata: serde_json::Value,
}

/// Changes to a card. What is absent stays; `Some(None)` clears a field.
#[derive(Debug, PartialEq, Eq)]
pub struct UpdateIssueRequest {
    pub status_id: Option<Uuid>,
    pub title: Option<String>,
    pub description: Option<Option<String>>,
    pub priority: Option<Option<IssuePriority>>,
    pub start_date: Option<Option<Timestamp>>,
    pub target_date: Option<Option<Timestamp>>,
    pub completed_at: Option<Option<Timestamp>>,
    pub sort_order: Option<SortKey>,
    pub parent_issue_id: Option<Option<Uuid>>,
    pub parent_issue_sort_order: Option<Option<SortKey>>,
    pub extension_metadata: Option<serde_json::Value>,
}

/// What to look for among the cards of a board. What is absent does not restrict.
#[derive(Debug, PartialEq, Eq)]
pub struct SearchIssuesRequest {
    pub project_id: Uuid,
    pub status_id: Option<Uuid>,
    pub status_ids: Option<Vec<Uuid>>,
    pub priority: Option<IssuePriority>,
    pub parent_issue_id: Option<Uuid>,
    pub simple_id: Option<String>,
    /// Looked for in titles and descriptions, whatever the case.
    pub search: Option<String>,
    pub limit: Option<i32>,
    pub offset: Option<i32>,
}

} // verus!
