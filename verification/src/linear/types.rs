//! What is known of Linear's issues and workflow states.
use vstd::prelude::*;

use crate::board::records::SortKey;
use crate::text;

verus! {

/// A workflow state of a Linear team.
#[derive(Debug, PartialEq, Eq)]
pub struct WorkflowState {
    pub id: String,
    pub name: String,
    /// The category of the state, such as `started`.
    pub state_type: String,
    /// Where the state stands in the workflow of the team.
    pub position: SortKey,
}

/// What a [`WorkflowState`] holds.
#[verifier::ext_equal]
pub struct WorkflowStateModel {
    pub id: Seq<char>,
    pub name: Seq<char>,
    pub state_type: Seq<char>,
    pub position: SortKey,
}

impl View for WorkflowState {
    type V = WorkflowStateModel;

    open spec fn view(&self) -> WorkflowStateModel {
        WorkflowStateModel {
            id: self.id@,
            name: self.name@,
            state_type: self.state_type@,
            position: self.position,
        }
    }
}

impl Clone for WorkflowState {
    fn clone(&self) -> (r: WorkflowState)
        ensures
            r@ == self@,
    {
        WorkflowState {
            id: self.id.clone(),
            name: self.name.clone(),
            state_type: self.state_type.clone(),
            position: self.position,
        }
    }
}

/// What an import needs to know of a Linear issue.
#[derive(Debug, PartialEq, Eq)]
pub struct ImportedIssue {
    /// The identifier of the issue in all of Linear.
    pub id: String,
    /// The key of the team and the number of the issue, such as `OOM-123`.
    pub identifier: String,
    pub title: String,
    pub url: String,
    pub state_id: Option<String>,
}

/// What a [`ImportedIssue`] holds.
#[verifier::ext_equal]
pub struct ImportedIssueModel {
    pub id: Seq<char>,
    pub identifier: Seq<char>,
    pub title: Seq<char>,
    pub url: Seq<char>,
    pub state_id: Option<Seq<char>>,
}

impl View for ImportedIssue {
    type V = ImportedIssueModel;

    open spec fn view(&self) -> ImportedIssueModel {
        ImportedIssueModel {
            id: self.id@,
            identifier: self.identifier@,
            title: self.title@,
            url: self.url@,
            state_id: text::opt_text(self.state_id),
        }
    }
}

impl Clone for ImportedIssue {
    fn clone(&self) -> (r: ImportedIssue)
        ensures
            r@ == self@,
    {
        ImportedIssue {
            id: self.id.clone(),
            identifier: self.identifier.clone(),
            title: self.title.clone(),
            url: self.url.clone(),
            state_id: text::copy_option(&self.state_id),
        }
    }
}

/// What linking a card needs to know of a Linear issue.
#[derive(Debug, PartialEq, Eq)]
pub struct ResolvedIssue {
    /// The identifier of the issue in all of Linear.
    pub id: String,
    /// The key of the team and the number of the issue, such as `OOM-123`.
    pub identifier: String,
    pub url: String,
    pub state_id: Option<String>,
    /// The team that the issue belongs to.
    pub team_id: String,
}

/// What a [`ResolvedIssue`] holds.
#[verifier::ext_equal]
pub struct ResolvedIssueModel {
    pub id: Seq<char>,
    pub identifier: Seq<char>,
    pub url: Seq<char>,
    pub state_id: Option<Seq<char>>,
    pub team_id: Seq<char>,
}

impl View for ResolvedIssue {
    type V = ResolvedIssueModel;

    open spec fn view(&self) -> ResolvedIssueModel {
        ResolvedIssueModel {
            id: self.id@,
            identifier: self.identifier@,
            url: self.url@,
            state_id: text::opt_text(self.state_id),
            team_id: self.team_id@,
        }
    }
}

impl Clone for ResolvedIssue {
    fn clone(&self) -> (r: ResolvedIssue)
        ensures
            r@ == self@,
    {
        ResolvedIssue {
            id: self.id.clone(),
            identifier: self.identifier.clone(),
            url: self.url.clone(),
            state_id: text::copy_option(&self.state_id),
            team_id: self.team_id.clone(),
        }
    }
}

} // verus!
