//! What the models of values stand for.
use vstd::prelude::*;

use crate::api::{ApiError, ApiErrorModel};
use crate::board::records::{
    BoardPullRequestIssueRow, BoardPullRequestRow, BoardWorkspaceRow, ImportCard, Issue, IssueRow,
    LinearLinkRow, Organization, PendingLinearSync, Project, ProjectRow, ProjectStatus,
    PullRequestRow, WorkspaceRow,
};
use crate::board::BoardError;
use crate::config::{Config, ConfigV7, LinearAccount};
use crate::github::cli::{GhCliError, GhCliErrorModel};
use crate::json::value_model;
use crate::linear::error::{LinearError, LinearErrorModel};
use crate::linear::types::{ImportedIssue, ResolvedIssue, WorkflowState};
use crate::monitor::{Action, ActionModel, ImportPlan};
use crate::routes::board_v1::OrganizationWithRole;
use crate::routes::linear::{
    IssueLinkView, LinearAccountView, LinearWorkflowStateView, LinkPlan, LinkedIssueView,
};

verus! {

/// The model of an organization holds each value under its own name.
pub proof fn law_model_of_organization(x: Organization)
    ensures
        x@.id == x.id,
        x@.issue_prefix == x.issue_prefix@,
{
}

/// The model of the row of a board holds each value under its own name.
pub proof fn law_model_of_project_row(x: ProjectRow)
    ensures
        x@.id == x.id,
        x@.organization_id == x.organization_id,
        x@.name == x.name@,
        x@.color == x.color@,
        x@.sort_order == x.sort_order,
        x@.issue_counter == x.issue_counter,
        x.linear_account_key matches Some(t) ==> x@.linear_account_key == Some(t@),
        x.linear_account_key is None ==> x@.linear_account_key is None,
        x.claude_account_variant matches Some(t) ==> x@.claude_account_variant == Some(t@),
        x.claude_account_variant is None ==> x@.claude_account_variant is None,
        x@.created_at == x.created_at,
        x@.updated_at == x.updated_at,
{
}

/// The model of a column holds each value under its own name.
pub proof fn law_model_of_project_status(x: ProjectStatus)
    ensures
        x@.id == x.id,
        x@.project_id == x.project_id,
        x@.name == x.name@,
        x@.color == x.color@,
        x@.sort_order == x.sort_order,
        x@.hidden == x.hidden,
        x@.created_at == x.created_at,
{
}

/// The model of the row of a card holds each value under its own name.
pub proof fn law_model_of_issue_row(x: IssueRow)
    ensures
        x@.id == x.id,
        x@.project_id == x.project_id,
        x@.issue_number == x.issue_number,
        x@.simple_id == x.simple_id@,
        x@.status_id == x.status_id,
        x@.title == x.title@,
        x.description matches Some(t) ==> x@.description == Some(t@),
        x.description is None ==> x@.description is None,
        x@.priority == x.priority,
        x@.start_date == x.start_date,
        x@.target_date == x.target_date,
        x@.completed_at == x.completed_at,
        x@.sort_order == x.sort_order,
        x@.parent_issue_id == x.parent_issue_id,
        x@.parent_issue_sort_order == x.parent_issue_sort_order,
        x@.extension_metadata == x.extension_metadata@,
        x@.creator_user_id == x.creator_user_id,
        x@.created_at == x.created_at,
        x@.updated_at == x.updated_at,
        x.linear_issue_id matches Some(t) ==> x@.linear_issue_id == Some(t@),
        x.linear_issue_id is None ==> x@.linear_issue_id is None,
        x.linear_issue_identifier matches Some(t) ==> x@.linear_issue_identifier == Some(t@),
        x.linear_issue_identifier is None ==> x@.linear_issue_identifier is None,
        x.linear_url matches Some(t) ==> x@.linear_url == Some(t@),
        x.linear_url is None ==> x@.linear_url is None,
        x.linear_state_id matches Some(t) ==> x@.linear_state_id == Some(t@),
        x.linear_state_id is None ==> x@.linear_state_id is None,
        x@.linear_sync_pending == x.linear_sync_pending,
{
}

/// The model of the row of a workspace holds each value under its own name.
pub proof fn law_model_of_workspace_row(x: WorkspaceRow)
    ensures
        x@.id == x.id,
        x@.issue_id == x.issue_id,
        x.name matches Some(t) ==> x@.name == Some(t@),
        x.name is None ==> x@.name is None,
        x@.archived == x.archived,
        x@.created_at == x.created_at,
        x@.updated_at == x.updated_at,
{
}

/// The model of the row of a pull request holds each value under its own name.
pub proof fn law_model_of_pull_request_row(x: PullRequestRow)
    ensures
        x@.id == x.id@,
        x@.workspace_id == x.workspace_id,
        x@.pr_url == x.pr_url@,
        x@.pr_number == x.pr_number,
        x@.pr_status == x.pr_status,
        x@.merged_at == x.merged_at,
        x.merge_commit_sha matches Some(t) ==> x@.merge_commit_sha == Some(t@),
        x.merge_commit_sha is None ==> x@.merge_commit_sha is None,
        x@.target_branch_name == x.target_branch_name@,
        x@.created_at == x.created_at,
        x@.updated_at == x.updated_at,
        x@.check_status == x.check_status,
{
}

/// The model of a board holds each value under its own name.
pub proof fn law_model_of_project(x: Project)
    ensures
        x@.id == x.id,
        x@.organization_id == x.organization_id,
        x@.name == x.name@,
        x@.color == x.color@,
        x@.sort_order == x.sort_order,
        x@.created_at == x.created_at,
        x@.updated_at == x.updated_at,
{
}

/// The model of a card holds each value under its own name.
pub proof fn law_model_of_issue(x: Issue)
    ensures
        x@.id == x.id,
        x@.project_id == x.project_id,
        x@.issue_number == x.issue_number,
        x@.simple_id == x.simple_id@,
        x@.status_id == x.status_id,
        x@.title == x.title@,
        x.description matches Some(t) ==> x@.description == Some(t@),
        x.description is None ==> x@.description is None,
        x@.priority == x.priority,
        x@.start_date == x.start_date,
        x@.target_date == x.target_date,
        x@.completed_at == x.completed_at,
        x@.sort_order == x.sort_order,
        x@.parent_issue_id == x.parent_issue_id,
        x@.parent_issue_sort_order == x.parent_issue_sort_order,
        x@.extension_metadata == value_model(x.extension_metadata),
        x@.creator_user_id == x.creator_user_id,
        x@.created_at == x.created_at,
        x@.updated_at == x.updated_at,
{
}

/// The model of a link holds each value under its own name.
pub proof fn law_model_of_linear_link_row(x: LinearLinkRow)
    ensures
        x@.issue_id == x.issue_id,
        x@.linear_issue_identifier == x.linear_issue_identifier@,
        x@.linear_url == x.linear_url@,
        x@.linear_sync_pending == x.linear_sync_pending,
{
}

/// The model of a card that awaits a push holds each value under its own name.
pub proof fn law_model_of_pending_linear_sync(x: PendingLinearSync)
    ensures
        x@.id == x.id,
        x@.status_id == x.status_id,
        x@.linear_issue_id == x.linear_issue_id@,
        x.linear_account_key matches Some(t) ==> x@.linear_account_key == Some(t@),
        x.linear_account_key is None ==> x@.linear_account_key is None,
{
}

/// The model of a card to be imported holds each value under its own name.
pub proof fn law_model_of_import_card(x: ImportCard)
    ensures
        x@.linear_issue_id == x.linear_issue_id@,
        x@.linear_issue_identifier == x.linear_issue_identifier@,
        x@.linear_url == x.linear_url@,
        x@.title == x.title@,
        x.linear_state_id matches Some(t) ==> x@.linear_state_id == Some(t@),
        x.linear_state_id is None ==> x@.linear_state_id is None,
        x@.status_id == x.status_id,
{
}

/// The model of a pull request on a board holds each value under its own name.
pub proof fn law_model_of_board_pull_request_row(x: BoardPullRequestRow)
    ensures
        x@.id == x.id@,
        x@.url == x.url@,
        x@.number == x.number,
        x@.status == x.status@,
        x@.merged_at == x.merged_at,
        x.merge_commit_sha matches Some(t) ==> x@.merge_commit_sha == Some(t@),
        x.merge_commit_sha is None ==> x@.merge_commit_sha is None,
        x@.target_branch_name == x.target_branch_name@,
        x@.project_id == x.project_id,
        x@.issue_id == x.issue_id,
        x@.workspace_id == x.workspace_id,
        x@.created_at == x.created_at,
        x@.updated_at == x.updated_at,
        x@.check_status == x.check_status,
{
}

/// The model of the join of a pull request and a card holds each value under its own name.
pub proof fn law_model_of_board_pull_request_issue_row(x: BoardPullRequestIssueRow)
    ensures
        x@.id == x.id@,
        x@.pull_request_id == x.pull_request_id@,
        x@.issue_id == x.issue_id,
{
}

/// The model of a workspace on a board holds each value under its own name.
pub proof fn law_model_of_board_workspace_row(x: BoardWorkspaceRow)
    ensures
        x@.id == x.id,
        x@.project_id == x.project_id,
        x@.owner_user_id == x.owner_user_id,
        x@.issue_id == x.issue_id,
        x@.local_workspace_id == x.local_workspace_id,
        x.name matches Some(t) ==> x@.name == Some(t@),
        x.name is None ==> x@.name is None,
        x@.archived == x.archived,
        x@.files_changed == x.files_changed,
        x@.lines_added == x.lines_added,
        x@.lines_removed == x.lines_removed,
        x@.created_at == x.created_at,
        x@.updated_at == x.updated_at,
{
}

/// The model of an import holds each value under its own name.
pub proof fn law_model_of_import_plan(x: ImportPlan)
    ensures
        x@.account_key == x.account_key@,
        x@.token == x.token@,
        x@.team_id == x.team_id@,
        x@.target_project_id == x.target_project_id,
        x.label matches Some(t) ==> x@.label == Some(t@),
        x.label is None ==> x@.label is None,
        x@.state_map == x.state_map@,
{
}

/// The model of a workflow state holds each value under its own name.
pub proof fn law_model_of_workflow_state(x: WorkflowState)
    ensures
        x@.id == x.id@,
        x@.name == x.name@,
        x@.state_type == x.state_type@,
        x@.position == x.position,
{
}

/// The model of an issue to be imported holds each value under its own name.
pub proof fn law_model_of_imported_issue(x: ImportedIssue)
    ensures
        x@.id == x.id@,
        x@.identifier == x.identifier@,
        x@.title == x.title@,
        x@.url == x.url@,
        x.state_id matches Some(t) ==> x@.state_id == Some(t@),
        x.state_id is None ==> x@.state_id is None,
{
}

/// The model of an issue to be linked holds each value under its own name.
pub proof fn law_model_of_resolved_issue(x: ResolvedIssue)
    ensures
        x@.id == x.id@,
        x@.identifier == x.identifier@,
        x@.url == x.url@,
        x.state_id matches Some(t) ==> x@.state_id == Some(t@),
        x.state_id is None ==> x@.state_id is None,
        x@.team_id == x.team_id@,
{
}

/// The model of an account holds each value under its own name.
pub proof fn law_model_of_linear_account(x: LinearAccount)
    ensures
        x.token matches Some(t) ==> x@.token == Some(t@),
        x.token is None ==> x@.token is None,
        x.workspace_name matches Some(t) ==> x@.workspace_name == Some(t@),
        x.workspace_name is None ==> x@.workspace_name is None,
        x.team_id matches Some(t) ==> x@.team_id == Some(t@),
        x.team_id is None ==> x@.team_id is None,
        x@.state_map == x.state_map@,
        x.import_target_project_id matches Some(t) ==> x@.import_target_project_id == Some(t@),
        x.import_target_project_id is None ==> x@.import_target_project_id is None,
        x.import_label matches Some(t) ==> x@.import_label == Some(t@),
        x.import_label is None ==> x@.import_label is None,
{
}

/// The model of a configuration holds each value under its own name.
pub proof fn law_model_of_config(x: Config)
    ensures
        x@.config_version == x.config_version@,
        x@.theme == x.theme@,
        x@.executor_profile == x.executor_profile@,
        x@.disclaimer_acknowledged == x.disclaimer_acknowledged,
        x@.onboarding_acknowledged == x.onboarding_acknowledged,
        x@.remote_onboarding_acknowledged == x.remote_onboarding_acknowledged,
        x@.notifications == x.notifications@,
        x@.editor == x.editor@,
        x@.github == x.github@,
        x@.analytics_enabled == x.analytics_enabled,
        x.workspace_dir matches Some(t) ==> x@.workspace_dir == Some(t@),
        x.workspace_dir is None ==> x@.workspace_dir is None,
        x.last_app_version matches Some(t) ==> x@.last_app_version == Some(t@),
        x.last_app_version is None ==> x@.last_app_version is None,
        x@.show_release_notes == x.show_release_notes,
        x@.language == x.language@,
        x@.git_branch_prefix == x.git_branch_prefix@,
        x@.showcases == x.showcases@,
        x@.pr_auto_description_enabled == x.pr_auto_description_enabled,
        x.pr_auto_description_prompt matches Some(t) ==> x@.pr_auto_description_prompt == Some(t@),
        x.pr_auto_description_prompt is None ==> x@.pr_auto_description_prompt is None,
        x@.commit_reminder_enabled == x.commit_reminder_enabled,
        x.commit_reminder_prompt matches Some(t) ==> x@.commit_reminder_prompt == Some(t@),
        x.commit_reminder_prompt is None ==> x@.commit_reminder_prompt is None,
        x@.send_message_shortcut == x.send_message_shortcut,
        x@.relay_enabled == x.relay_enabled,
        x.host_nickname matches Some(t) ==> x@.host_nickname == Some(t@),
        x.host_nickname is None ==> x@.host_nickname is None,
        x@.linear == x.linear@,
{
}

/// The model of an older configuration holds each value under its own name.
pub proof fn law_model_of_config_v7(x: ConfigV7)
    ensures
        x@.theme == x.theme@,
        x@.executor_profile == x.executor_profile@,
        x@.disclaimer_acknowledged == x.disclaimer_acknowledged,
        x@.onboarding_acknowledged == x.onboarding_acknowledged,
        x@.notifications == x.notifications@,
        x@.editor == x.editor@,
        x@.github == x.github@,
        x@.analytics_enabled == x.analytics_enabled,
        x.workspace_dir matches Some(t) ==> x@.workspace_dir == Some(t@),
        x.workspace_dir is None ==> x@.workspace_dir is None,
        x.last_app_version matches Some(t) ==> x@.last_app_version == Some(t@),
        x.last_app_version is None ==> x@.last_app_version is None,
        x@.show_release_notes == x.show_release_notes,
        x@.language == x.language@,
        x@.git_branch_prefix == x.git_branch_prefix@,
        x@.showcases == x.showcases@,
{
}

/// The model of an account as clients see it holds each value under its own name.
pub proof fn law_model_of_linear_account_view(x: LinearAccountView)
    ensures
        x@.key == x.key@,
        x.workspace_name matches Some(t) ==> x@.workspace_name == Some(t@),
        x.workspace_name is None ==> x@.workspace_name is None,
        x.team_id matches Some(t) ==> x@.team_id == Some(t@),
        x.team_id is None ==> x@.team_id is None,
        x@.has_token == x.has_token,
        x@.state_map == x.state_map@,
        x.import_target_project_id matches Some(t) ==> x@.import_target_project_id == Some(t@),
        x.import_target_project_id is None ==> x@.import_target_project_id is None,
        x.import_label matches Some(t) ==> x@.import_label == Some(t@),
        x.import_label is None ==> x@.import_label is None,
{
}

/// The model of a workflow state as clients see it holds each value under its own name.
pub proof fn law_model_of_linear_workflow_state_view(x: LinearWorkflowStateView)
    ensures
        x@.id == x.id@,
        x@.name == x.name@,
        x@.state_type == x.state_type@,
        x@.position == x.position,
{
}

/// The model of a link as clients see it holds each value under its own name.
pub proof fn law_model_of_issue_link_view(x: IssueLinkView)
    ensures
        x@.linear_issue_id == x.linear_issue_id@,
        x@.linear_issue_identifier == x.linear_issue_identifier@,
        x@.linear_url == x.linear_url@,
        x.linear_state_id matches Some(t) ==> x@.linear_state_id == Some(t@),
        x.linear_state_id is None ==> x@.linear_state_id is None,
{
}

/// The model of a badge holds each value under its own name.
pub proof fn law_model_of_linked_issue_view(x: LinkedIssueView)
    ensures
        x@.issue_id == x.issue_id@,
        x@.linear_issue_identifier == x.linear_issue_identifier@,
        x@.linear_url == x.linear_url@,
        x@.linear_sync_pending == x.linear_sync_pending,
{
}

/// The model of a link that is to be made holds each value under its own name.
pub proof fn law_model_of_link_plan(x: LinkPlan)
    ensures
        x@.identifier == x.identifier@,
        x@.account_key == x.account_key@,
        x@.token == x.token@,
        x.expected_team matches Some(t) ==> x@.expected_team == Some(t@),
        x.expected_team is None ==> x@.expected_team is None,
        x.mapped_target matches Some(t) ==> x@.mapped_target == Some(t@),
        x.mapped_target is None ==> x@.mapped_target is None,
{
}

/// The model of an organization as clients see it holds each value under its own name.
pub proof fn law_model_of_organization_with_role(x: OrganizationWithRole)
    ensures
        x@.id == x.id,
        x@.name == x.name@,
        x@.slug == x.slug@,
        x@.is_personal == x.is_personal,
        x@.issue_prefix == x.issue_prefix@,
        x@.created_at == x.created_at,
        x@.updated_at == x.updated_at,
        x@.user_role == x.user_role,
{
}

/// The model of an error says what the error says, and is of the same kind.
pub proof fn law_models_of_errors(m: String, e: BoardError)
    ensures
        LinearError::AuthFailed(m)@ == LinearErrorModel::AuthFailed(m@),
        LinearError::RateLimited@ == LinearErrorModel::RateLimited,
        LinearError::NotFound(m)@ == LinearErrorModel::NotFound(m@),
        LinearError::Api(m)@ == LinearErrorModel::Api(m@),
        LinearError::Http(m)@ == LinearErrorModel::Http(m@),
        LinearError::Malformed(m)@ == LinearErrorModel::Malformed(m@),
        LinearError::UnknownAccount(m)@ == LinearErrorModel::UnknownAccount(m@),
        GhCliError::NotAvailable@ == GhCliErrorModel::NotAvailable,
        GhCliError::CommandFailed(m)@ == GhCliErrorModel::CommandFailed(m@),
        GhCliError::AuthFailed(m)@ == GhCliErrorModel::AuthFailed(m@),
        GhCliError::UnexpectedOutput(m)@ == GhCliErrorModel::UnexpectedOutput(m@),
        ApiError::BadRequest(m)@ == ApiErrorModel::BadRequest(m@),
        ApiError::Conflict(m)@ == ApiErrorModel::Conflict(m@),
        ApiError::Forbidden(m)@ == ApiErrorModel::Forbidden(m@),
        ApiError::BadGateway(m)@ == ApiErrorModel::BadGateway(m@),
        ApiError::Board(e)@ == ApiErrorModel::Board(e),
{
}

/// The model of an action is of the same kind and about the same card, and holds
/// each value under its own name.
pub proof fn law_models_of_actions(a: Action)
    ensures
        a matches Action::Push { id, status_id, linear_issue_id, state_id, token } ==> a@
            == (ActionModel::Push {
            id,
            status_id,
            linear_issue_id: linear_issue_id@,
            state_id: state_id@,
            token: token@,
        }),
        a matches Action::Clear { id, status_id, reason } ==> a@ == (ActionModel::Clear {
            id,
            status_id,
            reason: reason@,
        }),
        a matches Action::Leave { id, reason } ==> a@ == (ActionModel::Leave {
            id,
            reason: reason@,
        }),
{
}

} // verus!
