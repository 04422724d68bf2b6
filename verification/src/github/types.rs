//! What is known of repositories, pull requests and their comments.
use vstd::prelude::*;

use crate::board::records::{CheckStatus, MergeStatus};
use crate::github::checks::GhCheckElement;
use crate::text;
use crate::time::Timestamp;

verus! {

/// A repository.
#[derive(Debug, PartialEq, Eq)]
pub struct GitHubRepoInfo {
    pub owner: String,
    pub repo_name: String,
    /// The host, where it is known.
    pub hostname: Option<String>,
}

impl Clone for GitHubRepoInfo {
    fn clone(&self) -> (r: GitHubRepoInfo)
        ensures
            r == *self,
    {
        GitHubRepoInfo {
            owner: self.owner.clone(),
            repo_name: self.repo_name.clone(),
            hostname: text::copy_option(&self.hostname),
        }
    }
}

/// How a repository is named on the command line: host, owner and name, as far
/// as they are known.
pub open spec fn repo_spec_of(info: GitHubRepoInfo) -> Seq<char> {
    match info.hostname {
        Some(host) => host@ + "/"@ + info.owner@ + "/"@ + info.repo_name@,
        None => info.owner@ + "/"@ + info.repo_name@,
    }
}

impl GitHubRepoInfo {
    /// How the repository is named on the command line.
    pub fn repo_spec(&self) -> (r: String)
        ensures
            r@ == repo_spec_of(*self),
    {
        let plain = text::join3(self.owner.as_str(), "/", self.repo_name.as_str());
        match &self.hostname {
            Some(host) => {
                let r = text::join3(host.as_str(), "/", plain.as_str());
                assert(r@ =~= repo_spec_of(*self));
                r
            },
            None => plain,
        }
    }
}

/// The owner of a repository, as the tool shows it.
#[derive(Debug, PartialEq, Eq)]
pub struct GhRepoOwner {
    pub login: String,
}

/// A repository, as the tool shows it.
#[derive(Debug, PartialEq, Eq)]
pub struct GhRepoViewResponse {
    pub owner: GhRepoOwner,
    pub name: String,
    pub url: String,
}

/// A user, as the tool shows them.
#[derive(Debug, PartialEq, Eq)]
pub struct GhUserLogin {
    pub login: Option<String>,
}

/// A comment, as the tool shows it.
#[derive(Debug, PartialEq, Eq)]
pub struct GhCommentResponse {
    pub id: String,
    pub author: Option<GhUserLogin>,
    pub author_association: String,
    pub body: String,
    pub created_at: Option<Timestamp>,
    pub url: String,
}

/// A review comment, as the tool shows it.
#[derive(Debug, PartialEq, Eq)]
pub struct GhReviewCommentResponse {
    pub id: i64,
    pub user: Option<GhUserLogin>,
    pub body: String,
    pub created_at: Option<Timestamp>,
    pub html_url: String,
    pub path: String,
    pub line: Option<i64>,
    pub side: Option<String>,
    pub diff_hunk: String,
    pub author_association: String,
}

/// The commit of a merge, as the tool shows it.
#[derive(Debug, PartialEq, Eq)]
pub struct GhMergeCommit {
    pub oid: Option<String>,
}

/// A pull request, as the tool shows it.
#[derive(Debug, PartialEq, Eq)]
pub struct GhPrResponse {
    pub number: i64,
    pub url: String,
    /// Empty where the tool does not say.
    pub state: String,
    pub merged_at: Option<Timestamp>,
    pub merge_commit: Option<GhMergeCommit>,
    pub title: Option<String>,
    pub base_ref_name: Option<String>,
    pub head_ref_name: Option<String>,
    pub updated_at: Option<Timestamp>,
    pub status_check_rollup: Vec<GhCheckElement>,
    pub merge_state_status: Option<String>,
}

/// What a pull request is to be made from.
#[derive(Debug, PartialEq, Eq)]
pub struct CreatePrRequest {
    pub title: String,
    pub body: Option<String>,
    pub head_branch: String,
    pub base_branch: String,
    pub draft: Option<bool>,
}

/// A pull request.
#[derive(Debug, PartialEq, Eq)]
pub struct PullRequestDetail {
    pub number: i64,
    pub url: String,
    pub status: MergeStatus,
    pub merged_at: Option<Timestamp>,
    pub merge_commit_sha: Option<String>,
    pub title: String,
    pub base_branch: String,
    pub head_branch: String,
    /// What the checks amount to, while the pull request is open.
    pub check_status: Option<CheckStatus>,
    pub merge_state: Option<String>,
}

/// Who wrote a comment.
#[derive(Debug, PartialEq, Eq)]
pub struct PrCommentAuthor {
    pub login: String,
}

/// A comment on a pull request.
#[derive(Debug, PartialEq, Eq)]
pub struct PrComment {
    pub id: String,
    pub author: PrCommentAuthor,
    pub author_association: String,
    pub body: String,
    pub created_at: Timestamp,
    pub url: String,
}

/// Who wrote a review comment.
#[derive(Debug, PartialEq, Eq)]
pub struct ReviewCommentUser {
    pub login: String,
}

/// A comment on a line of a pull request.
#[derive(Debug, PartialEq, Eq)]
pub struct PrReviewComment {
    pub id: i64,
    pub user: ReviewCommentUser,
    pub body: String,
    pub created_at: Timestamp,
    pub html_url: String,
    pub path: String,
    pub line: Option<i64>,
    pub side: Option<String>,
    pub diff_hunk: String,
    pub author_association: String,
}

} // verus!
