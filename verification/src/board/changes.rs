//! Changing and removing cards.
use vstd::prelude::*;

use crate::board::issues::{issue_of, Issues};
use crate::board::records::{Issue, IssueRow, IssueRowModel, UpdateIssueRequest};
use crate::board::{done, refused, Board, BoardError, BoardModel};
use crate::ids::Uuid;
use crate::json::{json_text, survives, value_model, value_text};
use crate::lists;
use crate::text;
use crate::time::Timestamp;

verus! {

/// What a change leaves of a value: the new one where there is one.
pub open spec fn or_kept<T>(change: Option<T>, kept: T) -> T {
    match change {
        Some(v) => v,
        None => kept,
    }
}

/// The row that a change leaves. A linked card whose column changes is marked as
/// having to be written to Linear.
pub open spec fn changed_row(
    row: IssueRowModel,
    req: UpdateIssueRequest,
    now: Timestamp,
) -> IssueRowModel {
    let status_id = or_kept(req.status_id, row.status_id);
    IssueRowModel {
        status_id,
        title: or_kept(text::opt_text(req.title), row.title),
        description: match req.description {
            Some(d) => text::opt_text(d),
            None => row.description,
        },
        priority: or_kept(req.priority, row.priority),
        start_date: or_kept(req.start_date, row.start_date),
        target_date: or_kept(req.target_date, row.target_date),
        completed_at: or_kept(req.completed_at, row.completed_at),
        sort_order: or_kept(req.sort_order, row.sort_order),
        parent_issue_id: or_kept(req.parent_issue_id, row.parent_issue_id),
        parent_issue_sort_order: or_kept(req.parent_issue_sort_order, row.parent_issue_sort_order),
        extension_metadata: match req.extension_metadata {
            Some(v) => json_text(value_model(v)),
            None => row.extension_metadata,
        },
        updated_at: now,
        linear_sync_pending: row.linear_sync_pending || (status_id != row.status_id
            && row.linear_issue_id is Some),
        ..row
    }
}

/// The outcome of changing a card.
pub open spec fn issue_change(
    b: BoardModel,
    id: Uuid,
    req: UpdateIssueRequest,
    now: Timestamp,
) -> Result<BoardModel, BoardError> {
    match b.issue_at(id) {
        None => Err(BoardError::RowNotFound),
        Some(i) => {
            let row = changed_row(b.issues[i], req, now);
            if b.status_at(row.status_id) is None {
                Err(BoardError::ForeignKeyViolation)
            } else {
                Ok(b.with_issue(i, row))
            }
        },
    }
}

/// The outcome of changing several cards one after the other: all changes, or the
/// first refusal.
pub open spec fn issue_changes(
    b: BoardModel,
    updates: Seq<(Uuid, UpdateIssueRequest)>,
    now: Timestamp,
) -> Result<BoardModel, BoardError>
    decreases updates.len(),
{
    if updates.len() == 0 {
        Ok(b)
    } else {
        match issue_changes(b, updates.drop_last(), now) {
            Err(e) => Err(e),
            Ok(c) => issue_change(c, updates.last().0, updates.last().1, now),
        }
    }
}

/// Whether the mirror has to be woken after a change: it takes a linked card to
/// another column.
pub open spec fn wakes(b: BoardModel, id: Uuid, req: UpdateIssueRequest) -> bool {
    match b.issue_at(id) {
        Some(i) => b.issues[i].linear_issue_id is Some && or_kept(
            req.status_id,
            b.issues[i].status_id,
        ) != b.issues[i].status_id,
        None => false,
    }
}

/// Whether the mirror has to be woken after several changes: one of them takes a
/// linked card to another column.
pub open spec fn any_wakes(
    b: BoardModel,
    updates: Seq<(Uuid, UpdateIssueRequest)>,
    now: Timestamp,
) -> bool
    decreases updates.len(),
{
    if updates.len() == 0 {
        false
    } else {
        any_wakes(b, updates.drop_last(), now) || (issue_changes(b, updates.drop_last(), now)
            matches Ok(c) && wakes(c, updates.last().0, updates.last().1))
    }
}

/// A refusal among the first changes is the refusal of all.
proof fn lemma_refusal_stays(
    b: BoardModel,
    updates: Seq<(Uuid, UpdateIssueRequest)>,
    now: Timestamp,
    k: int,
    e: BoardError,
)
    requires
        0 <= k <= updates.len(),
        issue_changes(b, updates.take(k), now) == refused(e),
    ensures
        issue_changes(b, updates, now) == refused(e),
    decreases updates.len() - k,
{
    if k == updates.len() {
        assert(updates.take(k) =~= updates);
    } else {
        assert(updates.take(k + 1).drop_last() =~= updates.take(k));
        lemma_refusal_stays(b, updates, now, k + 1, e);
    }
}

/// The outcome of removing a card, and how many rows went.
pub open spec fn issue_removal(b: BoardModel, id: Uuid) -> (BoardModel, u64) {
    match b.issue_at(id) {
        None => (b, 0),
        Some(i) => (BoardModel { issues: b.issues.remove(i), ..b }, 1),
    }
}

fn pick<T: Copy>(change: Option<T>, kept: T) -> (r: T)
    ensures
        r == or_kept(change, kept),
{
    match change {
        Some(v) => v,
        None => kept,
    }
}

impl Issues {
    /// Changes a card; says whether the mirror has to be woken. A linked card is
    /// marked as having to be written to Linear when, and only when, its column
    /// changes.
    pub(crate) fn update_on(
        board: &mut Board,
        id: Uuid,
        req: &UpdateIssueRequest,
        now: Timestamp,
    ) -> (r: Result<(Issue, bool), BoardError>)
        ensures
            match r {
                Ok(x) => issue_change(old(board)@, id, *req, now) == done(final(board)@) && (
                old(board)@.issue_at(id) matches Some(i) && x.0@ == issue_of(
                    final(board)@.issues[i],
                )) && x.1 == wakes(old(board)@, id, *req),
                Err(e) => issue_change(old(board)@, id, *req, now) == refused(e) && *final(board)
                    == *old(board),
            },
            r matches Ok(x) ==> req.extension_metadata matches Some(v) ==> survives(
                value_model(v),
            ) ==> x.0@.extension_metadata == value_model(v),
    {
        let i: usize = match board.find_issue(id) {
            Some(i) => i,
            None => return Err(BoardError::RowNotFound),
        };
        let ghost before = board@;
        let existing = &board.issues[i];
        assert(before.issues[i as int] == existing@);
        let status_id = pick(req.status_id, existing.status_id);
        let title = match &req.title {
            Some(t) => t.clone(),
            None => existing.title.clone(),
        };
        let description = match &req.description {
            Some(d) => text::copy_option(d),
            None => text::copy_option(&existing.description),
        };
        let extension_metadata = match &req.extension_metadata {
            Some(v) => value_text(v),
            None => existing.extension_metadata.clone(),
        };
        let nudge = existing.status_id != status_id && existing.linear_issue_id.is_some();
        let row = IssueRow {
            id: existing.id,
            project_id: existing.project_id,
            issue_number: existing.issue_number,
            simple_id: existing.simple_id.clone(),
            status_id,
            title,
            description,
            priority: pick(req.priority, existing.priority),
            start_date: pick(req.start_date, existing.start_date),
            target_date: pick(req.target_date, existing.target_date),
            completed_at: pick(req.completed_at, existing.completed_at),
            sort_order: pick(req.sort_order, existing.sort_order),
            parent_issue_id: pick(req.parent_issue_id, existing.parent_issue_id),
            parent_issue_sort_order: pick(
                req.parent_issue_sort_order,
                existing.parent_issue_sort_order,
            ),
            extension_metadata,
            creator_user_id: existing.creator_user_id,
            created_at: existing.created_at,
            updated_at: now,
            linear_issue_id: text::copy_option(&existing.linear_issue_id),
            linear_issue_identifier: text::copy_option(&existing.linear_issue_identifier),
            linear_url: text::copy_option(&existing.linear_url),
            linear_state_id: text::copy_option(&existing.linear_state_id),
            linear_sync_pending: existing.linear_sync_pending || nudge,
        };
        assert(row@ == changed_row(before.issues[i as int], *req, now));
        if board.find_status(status_id).is_none() {
            return Err(BoardError::ForeignKeyViolation);
        }
        let issue = row.into_api();
        board.issues[i] = row;
        proof {
            assert(board@.issues =~= before.issues.update(i as int, row@));
            assert(board@.statuses =~= before.statuses);
        }
        Ok((issue, nudge))
    }

    /// Changes a card.
    pub fn update(
        board: &mut Board,
        id: Uuid,
        req: &UpdateIssueRequest,
        now: Timestamp,
    ) -> (r: Result<Issue, BoardError>)
        ensures
            match r {
                Ok(issue) => issue_change(old(board)@, id, *req, now) == done(final(board)@) && (
                old(board)@.issue_at(id) matches Some(i) && issue@ == issue_of(
                    final(board)@.issues[i],
                )),
                Err(e) => issue_change(old(board)@, id, *req, now) == refused(e) && final(board)@
                    == old(board)@,
            },
            r matches Ok(issue) ==> req.extension_metadata matches Some(v) ==> survives(
                value_model(v),
            ) ==> issue@.extension_metadata == value_model(v),
    {
        match Self::update_on(board, id, req, now) {
            Ok(x) => Ok(x.0),
            Err(e) => Err(e),
        }
    }

    /// Changes several cards: all of them, or none where one change is refused.
    pub fn bulk_update(
        board: &mut Board,
        updates: &Vec<(Uuid, UpdateIssueRequest)>,
        now: Timestamp,
    ) -> (r: Result<(), BoardError>)
        ensures
            match r {
                Ok(_) => issue_changes(old(board)@, updates@, now) == done(final(board)@),
                Err(e) => issue_changes(old(board)@, updates@, now) == refused(e) && final(board)@
                    == old(board)@,
            },
    {
        match Self::bulk_update_on(board, updates, now) {
            Ok(_) => Ok(()),
            Err(e) => Err(e),
        }
    }

    /// Changes several cards: all of them, or none where one change is refused.
    /// Says whether the mirror has to be woken.
    pub(crate) fn bulk_update_on(
        board: &mut Board,
        updates: &Vec<(Uuid, UpdateIssueRequest)>,
        now: Timestamp,
    ) -> (r: Result<bool, BoardError>)
        ensures
            match r {
                Ok(nudge) => issue_changes(old(board)@, updates@, now) == done(final(board)@)
                    && nudge == any_wakes(old(board)@, updates@, now),
                Err(e) => issue_changes(old(board)@, updates@, now) == refused(e) && final(board)@
                    == old(board)@,
            },
    {
        let ghost before = board@;
        let saved = lists::copies(&board.issues);
        let mut k: usize = 0;
        let mut nudge = false;
        assert(updates@.take(0) =~= Seq::<(Uuid, UpdateIssueRequest)>::empty());
        while k < updates.len()
            invariant
                k <= updates@.len(),
                before == old(board)@,
                saved@.map_values(|x: IssueRow| x@) == before.issues,
                issue_changes(before, updates@.take(k as int), now) == done(board@),
                nudge == any_wakes(before, updates@.take(k as int), now),
                board@ == (BoardModel { issues: board@.issues, ..before }),
            decreases updates@.len() - k,
        {
            assert(updates@.take(k + 1).drop_last() =~= updates@.take(k as int));
            match Self::update_on(board, updates[k].0, &updates[k].1, now) {
                Ok(x) => {
                    nudge = nudge || x.1;
                },
                Err(e) => {
                    proof {
                        lemma_refusal_stays(before, updates@, now, k + 1, e);
                    }
                    board.issues = saved;
                    assert(board@ =~= before);
                    return Err(e);
                },
            }
            k += 1;
        }
        assert(updates@.take(updates@.len() as int) =~= updates@);
        Ok(nudge)
    }

    /// Removes a card; returns how many rows went.
    pub fn delete(board: &mut Board, id: Uuid) -> (r: u64)
        ensures
            (final(board)@, r) == issue_removal(old(board)@, id),
    {
        match board.find_issue(id) {
            Some(i) => {
                let ghost before = board@;
                board.issues.remove(i);
                assert(board@.issues =~= before.issues.remove(i as int));
                assert(board@ =~= (BoardModel { issues: before.issues.remove(i as int), ..before }));
                1
            },
            None => 0,
        }
    }
}

} // verus!
