//! Boards.
use vstd::prelude::*;

use crate::board::changes::or_kept;
use crate::board::records::{
    CreateProjectRequest, Project, ProjectModel, ProjectRow, ProjectRowModel, UpdateProjectRequest,
    LOCAL_ORG_ID,
};
use crate::board::statuses::{random_ids, seeding, ProjectStatuses, DEFAULT_STATUS_COUNT};
use crate::board::{done, refused, Board, BoardError, BoardModel};
use crate::ids::{all_drawn, given_or_drawn, Uuid};
use crate::lists;
use crate::order;
use crate::text;
use crate::time::Timestamp;

verus! {

/// The operations on boards.
///
/// There is none that removes a board: its row is shared with workspaces and
/// tasks, which would go with it.
pub struct BoardProjects;

// ---------------------------------------------------------------------------
// Reading
// ---------------------------------------------------------------------------
/// A board as callers see it.
pub open spec fn project_of(row: ProjectRowModel) -> ProjectModel {
    ProjectModel {
        id: row.id,
        organization_id: row.organization_id,
        name: row.name,
        color: row.color,
        sort_order: row.sort_order,
        created_at: row.created_at,
        updated_at: row.updated_at,
    }
}

/// The boards of an organization, in the order of the table.
pub open spec fn projects_of_org(b: BoardModel, organization_id: Uuid) -> Seq<ProjectRowModel> {
    b.projects.filter(|p: ProjectRowModel| p.organization_id == organization_id)
}

/// By what boards are ordered: their position, then when they were created.
pub open spec fn project_keys(rows: Seq<ProjectRowModel>) -> Seq<(int, int)> {
    rows.map_values(|p: ProjectRowModel| (p.sort_order as int, p.created_at.rank()))
}

/// The boards of an organization by position, then by when they were created.
pub open spec fn ordered_projects(b: BoardModel, organization_id: Uuid) -> Seq<ProjectModel> {
    let rows = projects_of_org(b, organization_id);
    order::arranged(rows, project_keys(rows)).map_values(|p: ProjectRowModel| project_of(p))
}

// ---------------------------------------------------------------------------
// Writing
// ---------------------------------------------------------------------------
/// Whether `n` is the last position of the local boards, -1 where there is none.
pub open spec fn is_last_order(b: BoardModel, n: int) -> bool {
    let local = |p: ProjectRowModel| p.organization_id == (Uuid { bits: LOCAL_ORG_ID });
    if exists|i: int| 0 <= i < b.projects.len() && local(#[trigger] b.projects[i]) {
        &&& exists|i: int|
            0 <= i < b.projects.len() && local(#[trigger] b.projects[i])
                && b.projects[i].sort_order == n
        &&& forall|i: int|
            0 <= i < b.projects.len() && local(#[trigger] b.projects[i])
                ==> b.projects[i].sort_order <= n
    } else {
        n == -1
    }
}

/// The last position of the local boards, -1 where there is none.
pub open spec fn last_order(b: BoardModel) -> int {
    choose|n: int| is_last_order(b, n)
}

/// The row of a new board. It belongs to the local organization.
pub open spec fn new_project(
    b: BoardModel,
    req: CreateProjectRequest,
    id: Uuid,
    now: Timestamp,
) -> ProjectRowModel {
    ProjectRowModel {
        id,
        organization_id: Uuid { bits: LOCAL_ORG_ID },
        name: req.name@,
        color: req.color@,
        sort_order: (last_order(b) + 1) as i32,
        issue_counter: 0,
        linear_account_key: None,
        claude_account_variant: None,
        created_at: now,
        updated_at: now,
    }
}

/// The outcome of creating a board under identifiers: it comes last, with the
/// default columns.
pub open spec fn project_creation(
    b: BoardModel,
    req: CreateProjectRequest,
    id: Uuid,
    status_ids: Seq<Uuid>,
    now: Timestamp,
) -> Result<BoardModel, BoardError> {
    if last_order(b) >= i32::MAX {
        Err(BoardError::Overflow)
    } else if b.project_at(id) is Some {
        Err(BoardError::UniqueViolation)
    } else {
        let s = seeding(
            BoardModel { projects: b.projects.push(new_project(b, req, id, now)), ..b },
            id,
            status_ids,
            now,
            DEFAULT_STATUS_COUNT as nat,
        );
        match s.error {
            Some(e) => Err(e),
            None => Ok(s.board),
        }
    }
}

/// The row that a change leaves.
pub open spec fn changed_project(
    row: ProjectRowModel,
    req: UpdateProjectRequest,
    now: Timestamp,
) -> ProjectRowModel {
    ProjectRowModel {
        name: or_kept(text::opt_text(req.name), row.name),
        color: or_kept(text::opt_text(req.color), row.color),
        sort_order: or_kept(req.sort_order, row.sort_order),
        updated_at: now,
        ..row
    }
}

/// The outcome of changing a board.
pub open spec fn project_change(
    b: BoardModel,
    id: Uuid,
    req: UpdateProjectRequest,
    now: Timestamp,
) -> Result<BoardModel, BoardError> {
    match b.project_at(id) {
        None => Err(BoardError::RowNotFound),
        Some(i) => Ok(
            BoardModel {
                projects: b.projects.update(i, changed_project(b.projects[i], req, now)),
                ..b
            },
        ),
    }
}

/// The outcome of changing several boards one after the other: all changes, or
/// the first refusal.
pub open spec fn project_changes(
    b: BoardModel,
    updates: Seq<(Uuid, UpdateProjectRequest)>,
    now: Timestamp,
) -> Result<BoardModel, BoardError>
    decreases updates.len(),
{
    if updates.len() == 0 {
        Ok(b)
    } else {
        match project_changes(b, updates.drop_last(), now) {
            Err(e) => Err(e),
            Ok(c) => project_change(c, updates.last().0, updates.last().1, now),
        }
    }
}

/// A refusal among the first changes is the refusal of all.
proof fn lemma_refusal_stays(
    b: BoardModel,
    updates: Seq<(Uuid, UpdateProjectRequest)>,
    now: Timestamp,
    k: int,
    e: BoardError,
)
    requires
        0 <= k <= updates.len(),
        project_changes(b, updates.take(k), now) == refused(e),
    ensures
        project_changes(b, updates, now) == refused(e),
    decreases updates.len() - k,
{
    if k == updates.len() {
        assert(updates.take(k) =~= updates);
    } else {
        assert(updates.take(k + 1).drop_last() =~= updates.take(k));
        lemma_refusal_stays(b, updates, now, k + 1, e);
    }
}

/// The Linear account that a board is bound to; none where there is no board.
pub open spec fn account_key_of(b: BoardModel, id: Uuid) -> Option<Seq<char>> {
    match b.project_at(id) {
        Some(i) => b.projects[i].linear_account_key,
        None => None,
    }
}

/// The executor variant that a board defaults to; none where there is no board.
pub open spec fn variant_of(b: BoardModel, id: Uuid) -> Option<Seq<char>> {
    match b.project_at(id) {
        Some(i) => b.projects[i].claude_account_variant,
        None => None,
    }
}

/// The board with a project bound to an account, or to none.
pub open spec fn bound(b: BoardModel, id: Uuid, key: Option<Seq<char>>) -> BoardModel {
    match b.project_at(id) {
        Some(i) => BoardModel {
            projects: b.projects.update(
                i,
                ProjectRowModel { linear_account_key: key, ..b.projects[i] },
            ),
            ..b
        },
        None => b,
    }
}

/// The board with a project that defaults to an executor variant, or to none.
pub open spec fn with_variant(b: BoardModel, id: Uuid, variant: Option<Seq<char>>) -> BoardModel {
    match b.project_at(id) {
        Some(i) => BoardModel {
            projects: b.projects.update(
                i,
                ProjectRowModel { claude_account_variant: variant, ..b.projects[i] },
            ),
            ..b
        },
        None => b,
    }
}

impl ProjectRow {
    /// The board as callers see it.
    fn into_api(&self) -> (r: Project)
        ensures
            r@ == project_of(self@),
    {
        Project {
            id: self.id,
            organization_id: self.organization_id,
            name: self.name.clone(),
            color: self.color.clone(),
            sort_order: self.sort_order,
            created_at: self.created_at,
            updated_at: self.updated_at,
        }
    }
}

/// Finds the last position of the local boards.
fn find_last_order(board: &Board) -> (r: i64)
    ensures
        r == last_order(board@),
        -0x8000_0000 <= r <= i32::MAX,
{
    let org = Uuid { bits: LOCAL_ORG_ID };
    let mut last: Option<i32> = None;
    for i in 0..board.projects.len()
        invariant
            org == (Uuid { bits: LOCAL_ORG_ID }),
            match last {
                Some(n) => {
                    &&& exists|k: int|
                        0 <= k < i && (#[trigger] board@.projects[k]).organization_id == org
                            && board@.projects[k].sort_order == n
                    &&& forall|k: int|
                        0 <= k < i && (#[trigger] board@.projects[k]).organization_id == org
                            ==> board@.projects[k].sort_order <= n
                },
                None => forall|k: int|
                    0 <= k < i ==> (#[trigger] board@.projects[k]).organization_id != org,
            },
    {
        let row = &board.projects[i];
        assert(board@.projects[i as int] == row@);
        if row.organization_id == org {
            match last {
                Some(n) => {
                    if row.sort_order > n {
                        last = Some(row.sort_order);
                    }
                },
                None => {
                    last = Some(row.sort_order);
                },
            }
        }
    }
    let r: i64 = match last {
        Some(n) => n as i64,
        None => -1,
    };
    proof {
        let b = board@;
        assert(is_last_order(b, r as int));
        let c = last_order(b);
        assert(is_last_order(b, c));
        assert(c == r);
    }
    r
}

impl BoardProjects {
    /// The boards of an organization by position, then by when they were created.
    pub fn list_by_org(board: &Board, organization_id: Uuid) -> (r: Vec<Project>)
        ensures
            r@.map_values(|x: Project| x@) == ordered_projects(board@, organization_id),
    {
        let ghost keep = |x: ProjectRowModel| x.organization_id == organization_id;
        let ghost all = board@.projects;
        let mut rows: Vec<&ProjectRow> = Vec::new();
        let mut keys: Vec<(i64, i128)> = Vec::new();
        proof {
            lists::lemma_filter_start(all, keep);
            assert(rows@.map_values(|x: &ProjectRow| x@) =~= Seq::<ProjectRowModel>::empty());
            assert(order::as_keys(keys@) =~= project_keys(Seq::<ProjectRowModel>::empty()));
        }
        for i in 0..board.projects.len()
            invariant
                all == board@.projects,
                keep == (|x: ProjectRowModel| x.organization_id == organization_id),
                rows@.map_values(|x: &ProjectRow| x@) == all.take(i as int).filter(keep),
                order::as_keys(keys@) == project_keys(all.take(i as int).filter(keep)),
        {
            let row = &board.projects[i];
            proof {
                lists::lemma_filter_next(all, keep, i as int);
                assert(all[i as int] == row@);
            }
            if row.organization_id == organization_id {
                let ghost before = all.take(i as int).filter(keep);
                let ghost keyed = keys@;
                rows.push(row);
                keys.push((row.sort_order as i64, row.created_at.order_key()));
                proof {
                    let key = (row.sort_order as int, row.created_at.rank());
                    assert(rows@.map_values(|x: &ProjectRow| x@) =~= before.push(row@));
                    assert(order::as_keys(keys@) =~= order::as_keys(keyed).push(key));
                    assert(project_keys(before.push(row@)) =~= project_keys(before).push(key));
                }
            }
        }
        let ghost kept = projects_of_org(board@, organization_id);
        proof {
            assert(all.take(all.len() as int) =~= all);
            assert(rows@.map_values(|x: &ProjectRow| x@) == kept);
        }
        let perm = order::find_stable_order(&keys);
        let mut out: Vec<Project> = Vec::new();
        for k in 0..perm.len()
            invariant
                out@.len() == k,
                kept == rows@.map_values(|x: &ProjectRow| x@),
                rows@.len() == keys@.len(),
                order::is_stable_order(order::as_keys(keys@), order::as_positions(perm@)),
                forall|j: int|
                    0 <= j < k ==> (#[trigger] out@[j])@ == project_of(
                        kept[order::as_positions(perm@)[j]],
                    ),
        {
            assert(order::as_positions(perm@)[k as int] == perm@[k as int]);
            let row = rows[perm[k]];
            assert(row@ == kept[perm@[k as int] as int]);
            out.push(row.into_api());
        }
        assert(out@.map_values(|x: Project| x@) =~= ordered_projects(board@, organization_id));
        out
    }

    /// A board.
    pub fn get(board: &Board, id: Uuid) -> (r: Option<Project>)
        ensures
            match r {
                Some(p) => board@.project_at(id) matches Some(i) && p@ == project_of(
                    board@.projects[i],
                ),
                None => board@.project_at(id) is None,
            },
    {
        match board.find_project(id) {
            Some(i) => Some(board.projects[i].into_api()),
            None => None,
        }
    }

    /// Creates a board with the default columns, under identifiers: all of it, or
    /// nothing where it is refused.
    pub fn create_with_ids(
        board: &mut Board,
        req: &CreateProjectRequest,
        id: Uuid,
        status_ids: &Vec<Uuid>,
        now: Timestamp,
    ) -> (r: Result<Project, BoardError>)
        requires
            status_ids@.len() == DEFAULT_STATUS_COUNT,
        ensures
            match r {
                Ok(p) => project_creation(old(board)@, *req, id, status_ids@, now) == done(
                    final(board)@,
                ) && p@ == project_of(new_project(old(board)@, *req, id, now)),
                Err(e) => project_creation(old(board)@, *req, id, status_ids@, now) == refused(e)
                    && final(board)@ == old(board)@,
            },
    {
        let ghost before = board@;
        let last: i64 = find_last_order(board);
        if last >= i32::MAX as i64 {
            return Err(BoardError::Overflow);
        }
        if board.find_project(id).is_some() {
            return Err(BoardError::UniqueViolation);
        }
        let row = ProjectRow {
            id,
            organization_id: Uuid { bits: LOCAL_ORG_ID },
            name: req.name.clone(),
            color: req.color.clone(),
            sort_order: (last + 1) as i32,
            issue_counter: 0,
            linear_account_key: None,
            claude_account_variant: None,
            created_at: now,
            updated_at: now,
        };
        assert(row@ == new_project(before, *req, id, now));
        let project = row.into_api();
        let columns = board.statuses.len();
        board.projects.push(row);
        proof {
            assert(board@.projects =~= before.projects.push(row@));
            assert(board@ =~= (BoardModel { projects: before.projects.push(row@), ..before }));
        }
        match ProjectStatuses::insert_defaults(board, id, status_ids, now) {
            Ok(_) => Ok(project),
            Err(e) => {
                board.projects.pop();
                board.statuses.truncate(columns);
                proof {
                    assert(board.projects@ =~= old(board).projects@);
                    assert(board.statuses@ =~= old(board).statuses@);
                    assert(board@ =~= before);
                }
                Err(e)
            },
        }
    }

    /// Creates a board with the default columns, under the identifier of the
    /// request or a random one.
    pub fn create(board: &mut Board, req: &CreateProjectRequest, now: Timestamp) -> (r: Result<
        Project,
        BoardError,
    >)
        ensures
            exists|id: Uuid, status_ids: Seq<Uuid>|
                #![trigger project_creation(old(board)@, *req, id, status_ids, now)]
                given_or_drawn(req.id, id) && status_ids.len()
                    == DEFAULT_STATUS_COUNT && all_drawn(status_ids) && match r {
                    Ok(p) => project_creation(old(board)@, *req, id, status_ids, now) == done(
                        final(board)@,
                    ) && p@ == project_of(new_project(old(board)@, *req, id, now)),
                    Err(e) => project_creation(old(board)@, *req, id, status_ids, now) == refused(e)
                        && final(board)@ == old(board)@,
                },
    {
        let id = match req.id {
            Some(id) => id,
            None => Uuid::new_v4(),
        };
        let status_ids = random_ids();
        Self::create_with_ids(board, req, id, &status_ids, now)
    }

    /// Changes a board.
    fn update_on(
        board: &mut Board,
        id: Uuid,
        req: &UpdateProjectRequest,
        now: Timestamp,
    ) -> (r: Result<Project, BoardError>)
        ensures
            match r {
                Ok(p) => project_change(old(board)@, id, *req, now) == done(final(board)@) && (old(board)@.project_at(id) matches Some(i) && p@ == project_of(final(board)@.projects[i])),
                Err(e) => project_change(old(board)@, id, *req, now) == refused(e) && *final(board)
                    == *old(board),
            },
    {
        let i: usize = match board.find_project(id) {
            Some(i) => i,
            None => return Err(BoardError::RowNotFound),
        };
        let ghost before = board@;
        let mut row = board.projects[i].clone();
        assert(before.projects[i as int] == board.projects@[i as int]@);
        if let Some(name) = &req.name {
            row.name = name.clone();
        }
        if let Some(color) = &req.color {
            row.color = color.clone();
        }
        if let Some(sort_order) = req.sort_order {
            row.sort_order = sort_order;
        }
        row.updated_at = now;
        let out = row.into_api();
        assert(row@ == changed_project(before.projects[i as int], *req, now));
        board.projects[i] = row;
        assert(board@.projects =~= before.projects.update(i as int, row@));
        Ok(out)
    }

    /// Changes a board.
    pub fn update(
        board: &mut Board,
        id: Uuid,
        req: &UpdateProjectRequest,
        now: Timestamp,
    ) -> (r: Result<Project, BoardError>)
        ensures
            match r {
                Ok(p) => project_change(old(board)@, id, *req, now) == done(final(board)@) && (old(board)@.project_at(id) matches Some(i) && p@ == project_of(final(board)@.projects[i])),
                Err(e) => project_change(old(board)@, id, *req, now) == refused(e) && final(board)@
                    == old(board)@,
            },
    {
        Self::update_on(board, id, req, now)
    }

    /// Changes several boards: all of them, or none where one change is refused.
    pub fn bulk_update(
        board: &mut Board,
        updates: &Vec<(Uuid, UpdateProjectRequest)>,
        now: Timestamp,
    ) -> (r: Result<(), BoardError>)
        ensures
            match r {
                Ok(_) => project_changes(old(board)@, updates@, now) == done(final(board)@),
                Err(e) => project_changes(old(board)@, updates@, now) == refused(e) && final(board)@ == old(board)@,
            },
    {
        let ghost before = board@;
        let saved = lists::copies(&board.projects);
        let mut k: usize = 0;
        assert(updates@.take(0) =~= Seq::<(Uuid, UpdateProjectRequest)>::empty());
        while k < updates.len()
            invariant
                k <= updates@.len(),
                before == old(board)@,
                saved@.map_values(|x: ProjectRow| x@) == before.projects,
                project_changes(before, updates@.take(k as int), now) == done(board@),
                board@ == (BoardModel { projects: board@.projects, ..before }),
            decreases updates@.len() - k,
        {
            assert(updates@.take(k + 1).drop_last() =~= updates@.take(k as int));
            match Self::update_on(board, updates[k].0, &updates[k].1, now) {
                Ok(_) => {},
                Err(e) => {
                    proof {
                        lemma_refusal_stays(before, updates@, now, k + 1, e);
                    }
                    board.projects = saved;
                    assert(board@ =~= before);
                    return Err(e);
                },
            }
            k += 1;
        }
        assert(updates@.take(updates@.len() as int) =~= updates@);
        Ok(())
    }

    /// The Linear account that a board is bound to. `None` also where there is no
    /// such board.
    pub fn linear_account_key(board: &Board, id: Uuid) -> (r: Option<String>)
        ensures
            text::opt_text(r) == account_key_of(board@, id),
    {
        match board.find_project(id) {
            Some(i) => text::copy_option(&board.projects[i].linear_account_key),
            None => None,
        }
    }

    /// Binds a board to a Linear account, or to none.
    pub fn set_linear_account_key(board: &mut Board, id: Uuid, key: Option<String>)
        ensures
            final(board)@ == bound(old(board)@, id, text::opt_text(key)),
    {
        if let Some(i) = board.find_project(id) {
            let ghost before = board@;
            assert(before.projects[i as int] == board.projects@[i as int]@);
            board.projects[i].linear_account_key = key;
            assert(board@.projects =~= bound(before, id, text::opt_text(key)).projects);
            assert(board@ =~= bound(before, id, text::opt_text(key)));
        }
    }

    /// The executor variant that a board defaults to. `None` also where there is
    /// no such board.
    pub fn claude_account_variant(board: &Board, id: Uuid) -> (r: Option<String>)
        ensures
            text::opt_text(r) == variant_of(board@, id),
    {
        match board.find_project(id) {
            Some(i) => text::copy_option(&board.projects[i].claude_account_variant),
            None => None,
        }
    }

    /// Lets a board default to an executor variant, or to none.
    pub fn set_claude_account_variant(board: &mut Board, id: Uuid, variant: Option<String>)
        ensures
            final(board)@ == with_variant(old(board)@, id, text::opt_text(variant)),
    {
        if let Some(i) = board.find_project(id) {
            let ghost before = board@;
            assert(before.projects[i as int] == board.projects@[i as int]@);
            board.projects[i].claude_account_variant = variant;
            assert(board@.projects =~= with_variant(before, id, text::opt_text(variant)).projects);
            assert(board@ =~= with_variant(before, id, text::opt_text(variant)));
        }
    }
}

} // verus!
