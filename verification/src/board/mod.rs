//! The board: its tables, and how their rows are found.
use vstd::prelude::*;

use crate::ids::Uuid;

pub mod card_laws;
pub mod changes;
pub mod import;
pub mod issues;
pub mod laws;
pub mod links;
pub mod projects;
pub mod pull_requests;
pub mod records;
pub mod statuses;
pub mod table_laws;

use records::{
    IssueRow, IssueRowModel, Organization, OrganizationModel, ProjectRow, ProjectRowModel,
    ProjectStatus, ProjectStatusModel, PullRequestRow, PullRequestRowModel, WorkspaceRow,
    WorkspaceRowModel, LOCAL_ORG_ID,
};

verus! {

/// Why an operation on the board was refused.
#[derive(Clone, Copy, Debug, PartialEq, Eq, Structural)]
pub enum BoardError {
    /// A row that the operation needs is not there.
    RowNotFound,
    /// A row with the same key is already there.
    UniqueViolation,
    /// A row refers to one that is not there, or would be left referring to none.
    ForeignKeyViolation,
    /// A counter or a position has no successor.
    Overflow,
    /// A value that has to be there is not.
    MissingValue,
}

/// All tables of the board.
#[derive(Debug)]
pub struct Board {
    pub organizations: Vec<Organization>,
    pub projects: Vec<ProjectRow>,
    pub statuses: Vec<ProjectStatus>,
    pub issues: Vec<IssueRow>,
    pub workspaces: Vec<WorkspaceRow>,
    pub pull_requests: Vec<PullRequestRow>,
}

/// What all tables of a [`Board`] hold.
#[verifier::ext_equal]
pub struct BoardModel {
    pub organizations: Seq<OrganizationModel>,
    pub projects: Seq<ProjectRowModel>,
    pub statuses: Seq<ProjectStatusModel>,
    pub issues: Seq<IssueRowModel>,
    pub workspaces: Seq<WorkspaceRowModel>,
    pub pull_requests: Seq<PullRequestRowModel>,
}

impl View for Board {
    type V = BoardModel;

    open spec fn view(&self) -> BoardModel {
        BoardModel {
            organizations: self.organizations@.map_values(|r: Organization| r@),
            projects: self.projects@.map_values(|r: ProjectRow| r@),
            statuses: self.statuses@.map_values(|r: ProjectStatus| r@),
            issues: self.issues@.map_values(|r: IssueRow| r@),
            workspaces: self.workspaces@.map_values(|r: WorkspaceRow| r@),
            pull_requests: self.pull_requests@.map_values(|r: PullRequestRow| r@),
        }
    }
}

/// The outcome of an operation that leaves the board as `b`.
pub open spec fn done(b: BoardModel) -> Result<BoardModel, BoardError> {
    Ok(b)
}

/// The outcome of an operation that is refused.
pub open spec fn refused(e: BoardError) -> Result<BoardModel, BoardError> {
    Err(e)
}

// ---------------------------------------------------------------------------
// Finding rows
// ---------------------------------------------------------------------------
/// The position of the first occurrence of an identifier.
pub open spec fn first_index(ids: Seq<Uuid>, id: Uuid) -> Option<int>
    decreases ids.len(),
{
    if ids.len() == 0 {
        None
    } else {
        match first_index(ids.drop_last(), id) {
            Some(i) => Some(i),
            None => if ids.last() == id {
                Some(ids.len() - 1)
            } else {
                None
            },
        }
    }
}

/// What the position of the first occurrence means.
pub proof fn lemma_first_index(ids: Seq<Uuid>, id: Uuid)
    ensures
        match first_index(ids, id) {
            Some(i) => {
                &&& 0 <= i < ids.len()
                &&& ids[i] == id
                &&& forall|j: int| 0 <= j < i ==> #[trigger] ids[j] != id
            },
            None => forall|j: int| 0 <= j < ids.len() ==> #[trigger] ids[j] != id,
        },
    decreases ids.len(),
{
    if ids.len() > 0 {
        lemma_first_index(ids.drop_last(), id);
        let front = ids.drop_last();
        assert forall|j: int| 0 <= j < front.len() implies #[trigger] ids[j] == front[j] by {}
    }
}

/// The position with an identifier before which there is none is the first.
pub proof fn lemma_is_first_index(ids: Seq<Uuid>, id: Uuid, i: int)
    requires
        0 <= i < ids.len(),
        ids[i] == id,
        forall|j: int| 0 <= j < i ==> #[trigger] ids[j] != id,
    ensures
        first_index(ids, id) == Some(i),
{
    lemma_first_index(ids, id);
}

/// A row with an identifier of its own.
pub trait Row: Sized {
    /// The identifier.
    spec fn key(&self) -> Uuid;

    /// The identifier.
    fn row_id(&self) -> (r: Uuid)
        ensures
            r == self.key(),
    ;
}

impl Row for Organization {
    open spec fn key(&self) -> Uuid {
        self.id
    }

    fn row_id(&self) -> (r: Uuid) {
        self.id
    }
}

impl Row for ProjectRow {
    open spec fn key(&self) -> Uuid {
        self.id
    }

    fn row_id(&self) -> (r: Uuid) {
        self.id
    }
}

impl Row for ProjectStatus {
    open spec fn key(&self) -> Uuid {
        self.id
    }

    fn row_id(&self) -> (r: Uuid) {
        self.id
    }
}

impl Row for IssueRow {
    open spec fn key(&self) -> Uuid {
        self.id
    }

    fn row_id(&self) -> (r: Uuid) {
        self.id
    }
}

impl Row for WorkspaceRow {
    open spec fn key(&self) -> Uuid {
        self.id
    }

    fn row_id(&self) -> (r: Uuid) {
        self.id
    }
}

/// The identifiers of rows.
pub open spec fn keys_of<T: Row>(rows: Seq<T>) -> Seq<Uuid> {
    rows.map_values(|r: T| r.key())
}

/// Finds the first row with an identifier.
pub(crate) fn find<T: Row>(rows: &Vec<T>, id: Uuid) -> (r: Option<usize>)
    ensures
        match r {
            Some(i) => i < rows@.len() && rows@[i as int].key() == id && first_index(
                keys_of(rows@),
                id,
            ) == Some(i as int),
            None => first_index(keys_of(rows@), id) is None,
        },
{
    let ghost ids = keys_of(rows@);
    proof {
        lemma_first_index(ids, id);
    }
    for i in 0..rows.len()
        invariant
            ids == keys_of(rows@),
            forall|j: int| 0 <= j < i ==> #[trigger] ids[j] != id,
    {
        if rows[i].row_id() == id {
            proof {
                assert(ids[i as int] == rows@[i as int].key());
                lemma_is_first_index(ids, id, i as int);
            }
            return Some(i);
        }
        assert(ids[i as int] == rows@[i as int].key());
    }
    None
}

impl BoardModel {
    /// The identifiers of the boards.
    pub open spec fn project_ids(self) -> Seq<Uuid> {
        self.projects.map_values(|r: ProjectRowModel| r.id)
    }

    /// The identifiers of the columns.
    pub open spec fn status_ids(self) -> Seq<Uuid> {
        self.statuses.map_values(|r: ProjectStatusModel| r.id)
    }

    /// The identifiers of the cards.
    pub open spec fn issue_ids(self) -> Seq<Uuid> {
        self.issues.map_values(|r: IssueRowModel| r.id)
    }

    /// Where a board is.
    pub open spec fn project_at(self, id: Uuid) -> Option<int> {
        first_index(self.project_ids(), id)
    }

    /// Where a column is.
    pub open spec fn status_at(self, id: Uuid) -> Option<int> {
        first_index(self.status_ids(), id)
    }

    /// Where a card is.
    pub open spec fn issue_at(self, id: Uuid) -> Option<int> {
        first_index(self.issue_ids(), id)
    }

    /// The board with another row in place of the card at `i`.
    pub open spec fn with_issue(self, i: int, row: IssueRowModel) -> BoardModel {
        BoardModel { issues: self.issues.update(i, row), ..self }
    }

    /// Where an organization is.
    pub open spec fn organization_at(self, id: Uuid) -> Option<int> {
        first_index(self.organizations.map_values(|r: OrganizationModel| r.id), id)
    }

    /// Where a workspace is.
    pub open spec fn workspace_at(self, id: Uuid) -> Option<int> {
        first_index(self.workspaces.map_values(|r: WorkspaceRowModel| r.id), id)
    }
}

impl Board {
    /// The identifiers of the rows are those of the model.
    pub proof fn lemma_keys(&self)
        ensures
            keys_of(self.organizations@) == self@.organizations.map_values(
                |r: OrganizationModel| r.id,
            ),
            keys_of(self.projects@) == self@.project_ids(),
            keys_of(self.statuses@) == self@.status_ids(),
            keys_of(self.issues@) == self@.issue_ids(),
            keys_of(self.workspaces@) == self@.workspaces.map_values(|r: WorkspaceRowModel| r.id),
    {
        assert(keys_of(self.organizations@) =~= self@.organizations.map_values(
            |r: OrganizationModel| r.id,
        ));
        assert(keys_of(self.projects@) =~= self@.project_ids());
        assert(keys_of(self.statuses@) =~= self@.status_ids());
        assert(keys_of(self.issues@) =~= self@.issue_ids());
        assert(keys_of(self.workspaces@) =~= self@.workspaces.map_values(
            |r: WorkspaceRowModel| r.id,
        ));
    }

    /// A board with the local organization and nothing else.
    pub fn new() -> (r: Board)
        ensures
            r@ == (BoardModel {
                organizations: seq![OrganizationModel { id: Uuid { bits: LOCAL_ORG_ID }, issue_prefix: "VK"@ }],
                projects: Seq::empty(),
                statuses: Seq::empty(),
                issues: Seq::empty(),
                workspaces: Seq::empty(),
                pull_requests: Seq::empty(),
            }),
    {
        let mut organizations: Vec<Organization> = Vec::new();
        organizations.push(Organization { id: Uuid { bits: LOCAL_ORG_ID }, issue_prefix: "VK".to_owned() });
        let r = Board {
            organizations,
            projects: Vec::new(),
            statuses: Vec::new(),
            issues: Vec::new(),
            workspaces: Vec::new(),
            pull_requests: Vec::new(),
        };
        assert(r@.organizations =~= seq![
            OrganizationModel { id: Uuid { bits: LOCAL_ORG_ID }, issue_prefix: "VK"@ },
        ]);
        r
    }

    pub(crate) fn find_project(&self, id: Uuid) -> (r: Option<usize>)
        ensures
            match r {
                Some(i) => i < self.projects@.len() && self@.project_at(id) == Some(i as int)
                    && self.projects@[i as int].id == id,
                None => self@.project_at(id) is None,
            },
    {
        proof {
            self.lemma_keys();
        }
        find(&self.projects, id)
    }

    pub(crate) fn find_status(&self, id: Uuid) -> (r: Option<usize>)
        ensures
            match r {
                Some(i) => i < self.statuses@.len() && self@.status_at(id) == Some(i as int)
                    && self.statuses@[i as int].id == id,
                None => self@.status_at(id) is None,
            },
    {
        proof {
            self.lemma_keys();
        }
        find(&self.statuses, id)
    }

    pub(crate) fn find_issue(&self, id: Uuid) -> (r: Option<usize>)
        ensures
            match r {
                Some(i) => i < self.issues@.len() && self@.issue_at(id) == Some(i as int)
                    && self.issues@[i as int].id == id,
                None => self@.issue_at(id) is None,
            },
    {
        proof {
            self.lemma_keys();
        }
        find(&self.issues, id)
    }

    pub(crate) fn find_organization(&self, id: Uuid) -> (r: Option<usize>)
        ensures
            match r {
                Some(i) => i < self.organizations@.len() && self@.organization_at(id) == Some(
                    i as int,
                ) && self.organizations@[i as int].id == id,
                None => self@.organization_at(id) is None,
            },
    {
        proof {
            self.lemma_keys();
        }
        find(&self.organizations, id)
    }

    pub(crate) fn find_workspace(&self, id: Uuid) -> (r: Option<usize>)
        ensures
            match r {
                Some(i) => i < self.workspaces@.len() && self@.workspace_at(id) == Some(i as int)
                    && self.workspaces@[i as int].id == id,
                None => self@.workspace_at(id) is None,
            },
    {
        proof {
            self.lemma_keys();
        }
        find(&self.workspaces, id)
    }
}

} // verus!
