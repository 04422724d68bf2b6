//! Columns.
use vstd::prelude::*;

use crate::board::changes::or_kept;
use crate::board::records::{
    CreateProjectStatusRequest, ProjectStatus, ProjectStatusModel, UpdateProjectStatusRequest,
};
use crate::board::{done, refused, Board, BoardError, BoardModel};
use crate::ids::{all_drawn, given_or_drawn, Uuid};
use crate::lists;
use crate::order;
use crate::text;
use crate::time::Timestamp;

verus! {

/// The operations on columns.
pub struct ProjectStatuses;

// ---------------------------------------------------------------------------
// Reading
// ---------------------------------------------------------------------------
/// The columns of a board, in the order of the table.
pub open spec fn statuses_on(b: BoardModel, project_id: Uuid) -> Seq<ProjectStatusModel> {
    b.statuses.filter(|s: ProjectStatusModel| s.project_id == project_id)
}

/// By what columns are ordered: their position.
pub open spec fn status_keys(rows: Seq<ProjectStatusModel>) -> Seq<(int, int)> {
    rows.map_values(|s: ProjectStatusModel| (s.sort_order as int, 0int))
}

/// The columns of a board by position.
pub open spec fn ordered_statuses(b: BoardModel, project_id: Uuid) -> Seq<ProjectStatusModel> {
    let rows = statuses_on(b, project_id);
    order::arranged(rows, status_keys(rows))
}

/// Whether a board has a column.
pub open spec fn has_columns(b: BoardModel, project_id: Uuid) -> bool {
    exists|i: int|
        0 <= i < b.statuses.len() && (#[trigger] b.statuses[i]).project_id == project_id
}

/// Whether a column has a card.
pub open spec fn has_cards(b: BoardModel, status_id: Uuid) -> bool {
    exists|i: int| 0 <= i < b.issues.len() && (#[trigger] b.issues[i]).status_id == status_id
}

// ---------------------------------------------------------------------------
// Writing
// ---------------------------------------------------------------------------
/// The name and colour of each column that a new board starts with.
pub open spec fn default_statuses() -> Seq<(Seq<char>, Seq<char>)> {
    seq![
        ("Todo"@, "220 9% 46%"@),
        ("In Progress"@, "38 92% 50%"@),
        ("In Review"@, "221 83% 53%"@),
        ("Done"@, "142 71% 45%"@),
        ("Cancelled"@, "0 84% 60%"@),
    ]
}

/// How many columns a new board starts with.
pub const DEFAULT_STATUS_COUNT: usize = 5;

/// A column that a new board starts with.
pub open spec fn default_status(
    project_id: Uuid,
    ids: Seq<Uuid>,
    now: Timestamp,
    k: int,
) -> ProjectStatusModel {
    ProjectStatusModel {
        id: ids[k],
        project_id,
        name: default_statuses()[k].0,
        color: default_statuses()[k].1,
        sort_order: k as i32,
        hidden: false,
        created_at: now,
    }
}

/// The outcome of putting a row into the table of columns.
pub open spec fn status_insertion(b: BoardModel, row: ProjectStatusModel) -> Result<
    BoardModel,
    BoardError,
> {
    if b.status_at(row.id) is Some {
        Err(BoardError::UniqueViolation)
    } else {
        Ok(BoardModel { statuses: b.statuses.push(row), ..b })
    }
}

/// How far seeding came: the board, and what stopped it.
#[verifier::ext_equal]
pub struct SeedProgress {
    pub board: BoardModel,
    pub error: Option<BoardError>,
}

/// The first `k` default columns, put in one after the other.
pub open spec fn seeding(
    b: BoardModel,
    project_id: Uuid,
    ids: Seq<Uuid>,
    now: Timestamp,
    k: nat,
) -> SeedProgress
    decreases k,
{
    if k == 0 {
        SeedProgress { board: b, error: None }
    } else {
        let s = seeding(b, project_id, ids, now, (k - 1) as nat);
        if s.error is Some {
            s
        } else {
            match status_insertion(s.board, default_status(project_id, ids, now, k - 1)) {
                Err(e) => SeedProgress { error: Some(e), ..s },
                Ok(c) => SeedProgress { board: c, ..s },
            }
        }
    }
}

/// The outcome of seeding a board: nothing where it has a column already.
pub open spec fn seeded(
    b: BoardModel,
    project_id: Uuid,
    ids: Seq<Uuid>,
    now: Timestamp,
) -> SeedProgress {
    if has_columns(b, project_id) {
        SeedProgress { board: b, error: None }
    } else {
        seeding(b, project_id, ids, now, DEFAULT_STATUS_COUNT as nat)
    }
}

/// Once stopped, seeding stays where it is.
proof fn lemma_seeding_stopped(
    b: BoardModel,
    project_id: Uuid,
    ids: Seq<Uuid>,
    now: Timestamp,
    k: nat,
    n: nat,
)
    requires
        k <= n,
        seeding(b, project_id, ids, now, k).error is Some,
    ensures
        seeding(b, project_id, ids, now, n) == seeding(b, project_id, ids, now, k),
    decreases n - k,
{
    if k < n {
        lemma_seeding_stopped(b, project_id, ids, now, k, (n - 1) as nat);
    }
}

/// The row of a new column.
pub open spec fn new_status(
    req: CreateProjectStatusRequest,
    id: Uuid,
    now: Timestamp,
) -> ProjectStatusModel {
    ProjectStatusModel {
        id,
        project_id: req.project_id,
        name: req.name@,
        color: req.color@,
        sort_order: req.sort_order,
        hidden: req.hidden,
        created_at: now,
    }
}

/// The row that a change leaves.
pub open spec fn changed_status(
    row: ProjectStatusModel,
    req: UpdateProjectStatusRequest,
) -> ProjectStatusModel {
    ProjectStatusModel {
        name: or_kept(text::opt_text(req.name), row.name),
        color: or_kept(text::opt_text(req.color), row.color),
        sort_order: or_kept(req.sort_order, row.sort_order),
        hidden: or_kept(req.hidden, row.hidden),
        ..row
    }
}

/// The outcome of changing a column.
pub open spec fn status_change(
    b: BoardModel,
    id: Uuid,
    req: UpdateProjectStatusRequest,
) -> Result<BoardModel, BoardError> {
    match b.status_at(id) {
        None => Err(BoardError::RowNotFound),
        Some(i) => Ok(
            BoardModel { statuses: b.statuses.update(i, changed_status(b.statuses[i], req)), ..b },
        ),
    }
}

/// The outcome of changing several columns one after the other: all changes, or
/// the first refusal.
pub open spec fn status_changes(
    b: BoardModel,
    updates: Seq<(Uuid, UpdateProjectStatusRequest)>,
) -> Result<BoardModel, BoardError>
    decreases updates.len(),
{
    if updates.len() == 0 {
        Ok(b)
    } else {
        match status_changes(b, updates.drop_last()) {
            Err(e) => Err(e),
            Ok(c) => status_change(c, updates.last().0, updates.last().1),
        }
    }
}

/// A refusal among the first changes is the refusal of all.
proof fn lemma_refusal_stays(
    b: BoardModel,
    updates: Seq<(Uuid, UpdateProjectStatusRequest)>,
    k: int,
    e: BoardError,
)
    requires
        0 <= k <= updates.len(),
        status_changes(b, updates.take(k)) == refused(e),
    ensures
        status_changes(b, updates) == refused(e),
    decreases updates.len() - k,
{
    if k == updates.len() {
        assert(updates.take(k) =~= updates);
    } else {
        assert(updates.take(k + 1).drop_last() =~= updates.take(k));
        lemma_refusal_stays(b, updates, k + 1, e);
    }
}

/// The outcome of removing a column, which must not have cards.
pub open spec fn status_removal(b: BoardModel, id: Uuid) -> Result<BoardModel, BoardError> {
    match b.status_at(id) {
        None => Ok(b),
        Some(i) => if has_cards(b, id) {
            Err(BoardError::ForeignKeyViolation)
        } else {
            Ok(BoardModel { statuses: b.statuses.remove(i), ..b })
        },
    }
}

/// The name and colour of a default column.
fn default_column(k: usize) -> (r: (&'static str, &'static str))
    requires
        k < DEFAULT_STATUS_COUNT,
    ensures
        r.0@ == default_statuses()[k as int].0,
        r.1@ == default_statuses()[k as int].1,
{
    if k == 0 {
        ("Todo", "220 9% 46%")
    } else if k == 1 {
        ("In Progress", "38 92% 50%")
    } else if k == 2 {
        ("In Review", "221 83% 53%")
    } else if k == 3 {
        ("Done", "142 71% 45%")
    } else {
        ("Cancelled", "0 84% 60%")
    }
}

/// Random identifiers for the default columns.
pub(crate) fn random_ids() -> (r: Vec<Uuid>)
    ensures
        r@.len() == DEFAULT_STATUS_COUNT,
        all_drawn(r@),
{
    let mut ids: Vec<Uuid> = Vec::new();
    for k in 0..DEFAULT_STATUS_COUNT
        invariant
            ids@.len() == k,
            all_drawn(ids@),
    {
        ids.push(Uuid::new_v4());
    }
    ids
}

impl ProjectStatuses {
    /// Puts a row into the table of columns.
    fn insert_status(board: &mut Board, row: ProjectStatus) -> (r: Result<(), BoardError>)
        ensures
            match r {
                Ok(_) => status_insertion(old(board)@, row@) == done(final(board)@) && *final(board)
                    == (Board { statuses: final(board).statuses, ..*old(board) })
                    && final(board).statuses@ == old(board).statuses@.push(row),
                Err(e) => status_insertion(old(board)@, row@) == refused(e) && *final(board)
                    == *old(board),
            },
    {
        if board.find_status(row.id).is_some() {
            return Err(BoardError::UniqueViolation);
        }
        let ghost before = board@;
        board.statuses.push(row);
        assert(board@.statuses =~= before.statuses.push(row@));
        Ok(())
    }

    /// Puts the default columns in, one after the other.
    pub(crate) fn insert_defaults(
        board: &mut Board,
        project_id: Uuid,
        ids: &Vec<Uuid>,
        now: Timestamp,
    ) -> (r: Result<(), BoardError>)
        requires
            ids@.len() == DEFAULT_STATUS_COUNT,
        ensures
            *final(board) == (Board { statuses: final(board).statuses, ..*old(board) }),
            old(board).statuses@.len() <= final(board).statuses@.len(),
            final(board).statuses@.take(old(board).statuses@.len() as int)
                == old(board).statuses@,
            ({
                let s = seeding(
                    old(board)@,
                    project_id,
                    ids@,
                    now,
                    DEFAULT_STATUS_COUNT as nat,
                );
                &&& final(board)@ == s.board
                &&& match r {
                    Ok(_) => s.error is None,
                    Err(e) => s.error == Some(e),
                }
            }),
    {
        let ghost n = board.statuses@.len() as int;
        for k in 0..DEFAULT_STATUS_COUNT
            invariant
                ids@.len() == DEFAULT_STATUS_COUNT,
                n == old(board).statuses@.len(),
                *board == (Board { statuses: board.statuses, ..*old(board) }),
                n <= board.statuses@.len(),
                board.statuses@.take(n) =~= old(board).statuses@,
                seeding(old(board)@, project_id, ids@, now, k as nat) == (SeedProgress {
                    board: board@,
                    error: None,
                }),
        {
            let (name, color) = default_column(k);
            let row = ProjectStatus {
                id: ids[k],
                project_id,
                name: name.to_owned(),
                color: color.to_owned(),
                sort_order: k as i32,
                hidden: false,
                created_at: now,
            };
            assert(row@ == default_status(project_id, ids@, now, k as int));
            let ghost here = board.statuses@;
            match Self::insert_status(board, row) {
                Ok(_) => {
                    assert(board.statuses@.take(n) =~= here.take(n));
                },
                Err(e) => {
                    proof {
                        lemma_seeding_stopped(
                            old(board)@,
                            project_id,
                            ids@,
                            now,
                            (k + 1) as nat,
                            DEFAULT_STATUS_COUNT as nat,
                        );
                    }
                    return Err(e);
                },
            }
        }
        Ok(())
    }

    /// The columns of a board by position.
    pub fn list_by_project(board: &Board, project_id: Uuid) -> (r: Vec<ProjectStatus>)
        ensures
            r@.map_values(|x: ProjectStatus| x@) == ordered_statuses(board@, project_id),
    {
        let ghost keep = |x: ProjectStatusModel| x.project_id == project_id;
        let ghost all = board@.statuses;
        let mut rows: Vec<&ProjectStatus> = Vec::new();
        let mut keys: Vec<(i64, i128)> = Vec::new();
        proof {
            lists::lemma_filter_start(all, keep);
            assert(rows@.map_values(|x: &ProjectStatus| x@)
                =~= Seq::<ProjectStatusModel>::empty());
            assert(order::as_keys(keys@) =~= status_keys(Seq::<ProjectStatusModel>::empty()));
        }
        for i in 0..board.statuses.len()
            invariant
                all == board@.statuses,
                keep == (|x: ProjectStatusModel| x.project_id == project_id),
                rows@.map_values(|x: &ProjectStatus| x@) == all.take(i as int).filter(keep),
                order::as_keys(keys@) == status_keys(all.take(i as int).filter(keep)),
        {
            let row = &board.statuses[i];
            proof {
                lists::lemma_filter_next(all, keep, i as int);
                assert(all[i as int] == row@);
            }
            if row.project_id == project_id {
                let ghost before = all.take(i as int).filter(keep);
                let ghost keyed = keys@;
                rows.push(row);
                keys.push((row.sort_order as i64, 0));
                proof {
                    let key = (row.sort_order as int, 0int);
                    assert(rows@.map_values(|x: &ProjectStatus| x@) =~= before.push(row@));
                    assert(order::as_keys(keys@) =~= order::as_keys(keyed).push(key));
                    assert(status_keys(before.push(row@)) =~= status_keys(before).push(key));
                }
            }
        }
        let ghost kept = statuses_on(board@, project_id);
        proof {
            assert(all.take(all.len() as int) =~= all);
            assert(rows@.map_values(|x: &ProjectStatus| x@) == kept);
        }
        let perm = order::find_stable_order(&keys);
        let mut out: Vec<ProjectStatus> = Vec::new();
        for k in 0..perm.len()
            invariant
                out@.len() == k,
                kept == rows@.map_values(|x: &ProjectStatus| x@),
                rows@.len() == keys@.len(),
                order::is_stable_order(order::as_keys(keys@), order::as_positions(perm@)),
                forall|j: int|
                    0 <= j < k ==> (#[trigger] out@[j])@ == kept[order::as_positions(perm@)[j]],
        {
            assert(order::as_positions(perm@)[k as int] == perm@[k as int]);
            let row = rows[perm[k]];
            assert(row@ == kept[perm@[k as int] as int]);
            out.push(row.clone());
        }
        assert(out@.map_values(|x: ProjectStatus| x@) =~= ordered_statuses(board@, project_id));
        out
    }

    /// Puts the default columns on a board that has none, under identifiers. A
    /// refusal leaves the columns that were put in before it.
    pub fn seed_with_ids(
        board: &mut Board,
        project_id: Uuid,
        ids: &Vec<Uuid>,
        now: Timestamp,
    ) -> (r: Result<(), BoardError>)
        requires
            ids@.len() == DEFAULT_STATUS_COUNT,
        ensures
            ({
                let s = seeded(old(board)@, project_id, ids@, now);
                &&& final(board)@ == s.board
                &&& match r {
                    Ok(_) => s.error is None,
                    Err(e) => s.error == Some(e),
                }
            }),
    {
        for i in 0..board.statuses.len()
            invariant
                *board == *old(board),
                forall|j: int|
                    0 <= j < i ==> (#[trigger] board@.statuses[j]).project_id != project_id,
        {
            assert(board@.statuses[i as int] == board.statuses@[i as int]@);
            if board.statuses[i].project_id == project_id {
                return Ok(());
            }
        }
        Self::insert_defaults(board, project_id, ids, now)
    }

    /// Puts the default columns on a board that has none, under random
    /// identifiers.
    pub fn seed_defaults(board: &mut Board, project_id: Uuid, now: Timestamp) -> (r: Result<
        (),
        BoardError,
    >)
        ensures
            exists|ids: Seq<Uuid>|
                ids.len() == DEFAULT_STATUS_COUNT && all_drawn(ids) && ({
                    let s = #[trigger] seeded(old(board)@, project_id, ids, now);
                    &&& final(board)@ == s.board
                    &&& match r {
                        Ok(_) => s.error is None,
                        Err(e) => s.error == Some(e),
                    }
                }),
    {
        let ids = random_ids();
        Self::seed_with_ids(board, project_id, &ids, now)
    }

    /// Creates a column under an identifier.
    pub fn create_with_id(
        board: &mut Board,
        req: &CreateProjectStatusRequest,
        id: Uuid,
        now: Timestamp,
    ) -> (r: Result<ProjectStatus, BoardError>)
        ensures
            match r {
                Ok(s) => s@ == new_status(*req, id, now) && status_insertion(
                    old(board)@,
                    s@,
                ) == done(final(board)@),
                Err(e) => status_insertion(old(board)@, new_status(*req, id, now)) == refused(e)
                    && final(board)@ == old(board)@,
            },
    {
        let row = ProjectStatus {
            id,
            project_id: req.project_id,
            name: req.name.clone(),
            color: req.color.clone(),
            sort_order: req.sort_order,
            hidden: req.hidden,
            created_at: now,
        };
        let out = row.clone();
        match Self::insert_status(board, row) {
            Ok(_) => Ok(out),
            Err(e) => Err(e),
        }
    }

    /// Creates a column, under the identifier of the request or a random one.
    pub fn create(
        board: &mut Board,
        req: &CreateProjectStatusRequest,
        now: Timestamp,
    ) -> (r: Result<ProjectStatus, BoardError>)
        ensures
            exists|id: Uuid|
                given_or_drawn(req.id, id) && match r {
                    Ok(s) => s@ == #[trigger] new_status(*req, id, now) && status_insertion(
                        old(board)@,
                        s@,
                    ) == done(final(board)@),
                    Err(e) => status_insertion(old(board)@, new_status(*req, id, now)) == refused(e)
                        && final(board)@ == old(board)@,
                },
    {
        let id = match req.id {
            Some(id) => id,
            None => Uuid::new_v4(),
        };
        Self::create_with_id(board, req, id, now)
    }

    /// Changes a column.
    fn update_on(board: &mut Board, id: Uuid, req: &UpdateProjectStatusRequest) -> (r: Result<
        ProjectStatus,
        BoardError,
    >)
        ensures
            match r {
                Ok(s) => status_change(old(board)@, id, *req) == done(final(board)@) && (old(board)@.status_at(id) matches Some(i) && s@ == final(board)@.statuses[i]),
                Err(e) => status_change(old(board)@, id, *req) == refused(e) && *final(board)
                    == *old(board),
            },
    {
        let i: usize = match board.find_status(id) {
            Some(i) => i,
            None => return Err(BoardError::RowNotFound),
        };
        let ghost before = board@;
        let mut row = board.statuses[i].clone();
        assert(before.statuses[i as int] == board.statuses@[i as int]@);
        if let Some(name) = &req.name {
            row.name = name.clone();
        }
        if let Some(color) = &req.color {
            row.color = color.clone();
        }
        if let Some(sort_order) = req.sort_order {
            row.sort_order = sort_order;
        }
        if let Some(hidden) = req.hidden {
            row.hidden = hidden;
        }
        let out = row.clone();
        assert(row@ == changed_status(before.statuses[i as int], *req));
        board.statuses[i] = row;
        assert(board@.statuses =~= before.statuses.update(i as int, row@));
        Ok(out)
    }

    /// Changes a column.
    pub fn update(board: &mut Board, id: Uuid, req: &UpdateProjectStatusRequest) -> (r: Result<
        ProjectStatus,
        BoardError,
    >)
        ensures
            match r {
                Ok(s) => status_change(old(board)@, id, *req) == done(final(board)@) && (old(board)@.status_at(id) matches Some(i) && s@ == final(board)@.statuses[i]),
                Err(e) => status_change(old(board)@, id, *req) == refused(e) && final(board)@
                    == old(board)@,
            },
    {
        Self::update_on(board, id, req)
    }

    /// Changes several columns: all of them, or none where one change is refused.
    pub fn bulk_update(
        board: &mut Board,
        updates: &Vec<(Uuid, UpdateProjectStatusRequest)>,
    ) -> (r: Result<(), BoardError>)
        ensures
            match r {
                Ok(_) => status_changes(old(board)@, updates@) == done(final(board)@),
                Err(e) => status_changes(old(board)@, updates@) == refused(e) && final(board)@
                    == old(board)@,
            },
    {
        let ghost before = board@;
        let saved = lists::copies(&board.statuses);
        let mut k: usize = 0;
        assert(updates@.take(0) =~= Seq::<(Uuid, UpdateProjectStatusRequest)>::empty());
        while k < updates.len()
            invariant
                k <= updates@.len(),
                before == old(board)@,
                saved@.map_values(|x: ProjectStatus| x@) == before.statuses,
                status_changes(before, updates@.take(k as int)) == done(board@),
                board@ == (BoardModel { statuses: board@.statuses, ..before }),
            decreases updates@.len() - k,
        {
            assert(updates@.take(k + 1).drop_last() =~= updates@.take(k as int));
            match Self::update_on(board, updates[k].0, &updates[k].1) {
                Ok(_) => {},
                Err(e) => {
                    proof {
                        lemma_refusal_stays(before, updates@, k + 1, e);
                    }
                    board.statuses = saved;
                    assert(board@ =~= before);
                    return Err(e);
                },
            }
            k += 1;
        }
        assert(updates@.take(updates@.len() as int) =~= updates@);
        Ok(())
    }

    /// Removes a column; returns how many rows went. A column that has cards is
    /// refused.
    pub fn delete(board: &mut Board, id: Uuid) -> (r: Result<u64, BoardError>)
        ensures
            match r {
                Ok(n) => status_removal(old(board)@, id) == done(final(board)@) && n == (if old(board)@.status_at(id) is Some {
                    1int
                } else {
                    0
                }),
                Err(e) => status_removal(old(board)@, id) == refused(e) && final(board)@ == old(board)@,
            },
    {
        let i: usize = match board.find_status(id) {
            Some(i) => i,
            None => return Ok(0),
        };
        for k in 0..board.issues.len()
            invariant
                *board == *old(board),
                board@.status_at(id) is Some,
                forall|j: int| 0 <= j < k ==> (#[trigger] board@.issues[j]).status_id != id,
        {
            assert(board@.issues[k as int] == board.issues@[k as int]@);
            if board.issues[k].status_id == id {
                return Err(BoardError::ForeignKeyViolation);
            }
        }
        let ghost before = board@;
        board.statuses.remove(i);
        assert(board@.statuses =~= before.statuses.remove(i as int));
        Ok(1)
    }
}

} // verus!
