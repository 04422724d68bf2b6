//! The links of cards to Linear issues, and the marks of what has yet to be
//! written there.
//!
//! None of the operations here marks a card because its column changed: that is
//! left to [`Issues::update`] and [`Issues::bulk_update`].
use vstd::prelude::*;

use crate::board::issues::Issues;
use crate::board::records::{
    IssueRowModel, LinearLinkRow, LinearLinkRowModel, PendingLinearSync, PendingLinearSyncModel,
};
use crate::board::{done, refused, Board, BoardError, BoardModel};
use crate::ids::Uuid;
use crate::lists;
use crate::text;

verus! {

// ---------------------------------------------------------------------------
// Reading
// ---------------------------------------------------------------------------
/// Whether a row is a linked card of a board.
pub open spec fn linked_on(project_id: Uuid, row: IssueRowModel) -> bool {
    row.project_id == project_id && row.linear_issue_id is Some
}

/// The link of a linked card.
pub open spec fn link_of(row: IssueRowModel) -> LinearLinkRowModel {
    LinearLinkRowModel {
        issue_id: row.id,
        linear_issue_identifier: row.linear_issue_identifier->0,
        linear_url: row.linear_url->0,
        linear_sync_pending: if row.linear_sync_pending {
            1
        } else {
            0
        },
    }
}

/// Whether a linked card has all that its badge shows.
pub open spec fn has_badge(row: IssueRowModel) -> bool {
    row.linear_issue_identifier is Some && row.linear_url is Some
}

/// Whether all cards have what their badges show.
pub open spec fn all_badged(rows: Seq<IssueRowModel>) -> bool {
    forall|i: int| 0 <= i < rows.len() ==> has_badge(#[trigger] rows[i])
}

/// The linked cards of a board.
pub open spec fn linked_issues(b: BoardModel, project_id: Uuid) -> Seq<IssueRowModel> {
    b.issues.filter(|r: IssueRowModel| linked_on(project_id, r))
}

/// Whether a card has a change of column to be written to Linear.
pub open spec fn awaits_push(b: BoardModel, row: IssueRowModel) -> bool {
    row.linear_sync_pending && row.linear_issue_id is Some && b.project_at(row.project_id) is Some
}

/// A card that has a change of column to be written to Linear.
pub open spec fn push_of(b: BoardModel, row: IssueRowModel) -> PendingLinearSyncModel {
    PendingLinearSyncModel {
        id: row.id,
        status_id: row.status_id,
        linear_issue_id: row.linear_issue_id->0,
        linear_account_key: b.projects[b.project_at(row.project_id)->0].linear_account_key,
    }
}

/// All cards that have a change of column to be written to Linear.
pub open spec fn pending_pushes(b: BoardModel) -> Seq<PendingLinearSyncModel> {
    b.issues.filter(|r: IssueRowModel| awaits_push(b, r)).map_values(
        |r: IssueRowModel| push_of(b, r),
    )
}

impl Issues {
    /// The links of the linked cards of a board.
    pub fn list_linear_links(board: &Board, project_id: Uuid) -> (r: Result<
        Vec<LinearLinkRow>,
        BoardError,
    >)
        ensures
            ({
                let rows = linked_issues(board@, project_id);
                match r {
                    Ok(links) => all_badged(rows) && links@.map_values(|x: LinearLinkRow| x@)
                        == rows.map_values(|x: IssueRowModel| link_of(x)),
                    Err(e) => !all_badged(rows) && e == BoardError::MissingValue,
                }
            }),
    {
        let ghost keep = |x: IssueRowModel| linked_on(project_id, x);
        let ghost link = |x: IssueRowModel| link_of(x);
        let ghost all = board@.issues;
        let mut links: Vec<LinearLinkRow> = Vec::new();
        proof {
            lists::lemma_filter_start(all, keep);
            assert(links@.map_values(|x: LinearLinkRow| x@) =~= all.take(0).filter(
                keep,
            ).map_values(link));
        }
        for i in 0..board.issues.len()
            invariant
                all == board@.issues,
                keep == (|x: IssueRowModel| linked_on(project_id, x)),
                link == (|x: IssueRowModel| link_of(x)),
                links@.map_values(|x: LinearLinkRow| x@) == all.take(i as int).filter(
                    keep,
                ).map_values(link),
                all_badged(all.take(i as int).filter(keep)),
        {
            let row = &board.issues[i];
            let ghost before = all.take(i as int).filter(keep);
            proof {
                lists::lemma_filter_next(all, keep, i as int);
                assert(all[i as int] == row@);
            }
            if row.project_id == project_id && row.linear_issue_id.is_some() {
                match (&row.linear_issue_identifier, &row.linear_url) {
                    (Some(identifier), Some(url)) => {
                        let ghost given = links@.map_values(|x: LinearLinkRow| x@);
                        links.push(
                            LinearLinkRow {
                                issue_id: row.id,
                                linear_issue_identifier: identifier.clone(),
                                linear_url: url.clone(),
                                linear_sync_pending: if row.linear_sync_pending {
                                    1
                                } else {
                                    0
                                },
                            },
                        );
                        proof {
                            assert(links@.map_values(|x: LinearLinkRow| x@) =~= given.push(
                                link_of(row@),
                            ));
                            assert(before.push(row@).map_values(link) =~= before.map_values(
                                link,
                            ).push(link_of(row@)));
                        }
                    },
                    _ => {
                        proof {
                            let rows = linked_issues(board@, project_id);
                            lists::lemma_filter_contains(all, keep, row@);
                            assert(rows.contains(row@));
                            let j = choose|j: int| 0 <= j < rows.len() && rows[j] == row@;
                            assert(!has_badge(rows[j]));
                        }
                        return Err(BoardError::MissingValue);
                    },
                }
            }
        }
        assert(all.take(all.len() as int) =~= all);
        Ok(links)
    }

    /// The cards that have a change of column to be written to Linear, each with
    /// the account that its board is bound to.
    pub fn list_pending_linear_sync(board: &Board) -> (r: Vec<PendingLinearSync>)
        ensures
            r@.map_values(|x: PendingLinearSync| x@) == pending_pushes(board@),
    {
        let ghost keep = |x: IssueRowModel| awaits_push(board@, x);
        let ghost push = |x: IssueRowModel| push_of(board@, x);
        let ghost all = board@.issues;
        let mut out: Vec<PendingLinearSync> = Vec::new();
        proof {
            lists::lemma_filter_start(all, keep);
            assert(out@.map_values(|x: PendingLinearSync| x@) =~= all.take(0).filter(
                keep,
            ).map_values(push));
        }
        for i in 0..board.issues.len()
            invariant
                all == board@.issues,
                keep == (|x: IssueRowModel| awaits_push(board@, x)),
                push == (|x: IssueRowModel| push_of(board@, x)),
                out@.map_values(|x: PendingLinearSync| x@) == all.take(i as int).filter(
                    keep,
                ).map_values(push),
        {
            let row = &board.issues[i];
            let ghost before = all.take(i as int).filter(keep);
            proof {
                lists::lemma_filter_next(all, keep, i as int);
                assert(all[i as int] == row@);
            }
            if row.linear_sync_pending {
                if let Some(linear_issue_id) = &row.linear_issue_id {
                    if let Some(p) = board.find_project(row.project_id) {
                        let ghost given = out@.map_values(|x: PendingLinearSync| x@);
                        out.push(
                            PendingLinearSync {
                                id: row.id,
                                status_id: row.status_id,
                                linear_issue_id: linear_issue_id.clone(),
                                linear_account_key: text::copy_option(
                                    &board.projects[p].linear_account_key,
                                ),
                            },
                        );
                        proof {
                            assert(board@.projects[p as int] == board.projects@[p as int]@);
                            assert(out@.map_values(|x: PendingLinearSync| x@) =~= given.push(
                                push_of(board@, row@),
                            ));
                            assert(before.push(row@).map_values(push) =~= before.map_values(
                                push,
                            ).push(push_of(board@, row@)));
                        }
                    }
                }
            }
        }
        assert(all.take(all.len() as int) =~= all);
        out
    }
}

// ---------------------------------------------------------------------------
// Writing
// ---------------------------------------------------------------------------
/// Where a card is, as long as it is in the column that is expected.
pub open spec fn still_in(b: BoardModel, id: Uuid, expected_status_id: Uuid) -> Option<int> {
    match b.issue_at(id) {
        Some(i) => if b.issues[i].status_id == expected_status_id {
            Some(i)
        } else {
            None
        },
        None => None,
    }
}

/// The board after the column of a card was written to Linear: the mark goes and
/// the state is noted, unless the card was moved meanwhile.
pub open spec fn synced(
    b: BoardModel,
    id: Uuid,
    expected_status_id: Uuid,
    state_id: Seq<char>,
) -> BoardModel {
    match still_in(b, id, expected_status_id) {
        Some(i) => b.with_issue(
            i,
            IssueRowModel {
                linear_sync_pending: false,
                linear_state_id: Some(state_id),
                ..b.issues[i]
            },
        ),
        None => b,
    }
}

/// The board after the mark of a card is given up, unless the card was moved
/// meanwhile.
pub open spec fn cleared(b: BoardModel, id: Uuid, expected_status_id: Uuid) -> BoardModel {
    match still_in(b, id, expected_status_id) {
        Some(i) => b.with_issue(i, IssueRowModel { linear_sync_pending: false, ..b.issues[i] }),
        None => b,
    }
}

/// Whether a card other than the one at `i` mirrors a Linear issue.
pub open spec fn linked_elsewhere(b: BoardModel, i: int, linear_issue_id: Seq<char>) -> bool {
    exists|j: int|
        0 <= j < b.issues.len() && j != i && (#[trigger] b.issues[j]).linear_issue_id == Some(
            linear_issue_id,
        )
}

/// The outcome of linking a card to a Linear issue.
pub open spec fn linking(
    b: BoardModel,
    id: Uuid,
    linear_issue_id: Seq<char>,
    linear_issue_identifier: Seq<char>,
    linear_url: Seq<char>,
    linear_state_id: Option<Seq<char>>,
    sync_pending: bool,
) -> Result<BoardModel, BoardError> {
    match b.issue_at(id) {
        None => Ok(b),
        Some(i) => if linked_elsewhere(b, i, linear_issue_id) {
            Err(BoardError::UniqueViolation)
        } else {
            Ok(
                b.with_issue(
                    i,
                    IssueRowModel {
                        linear_issue_id: Some(linear_issue_id),
                        linear_issue_identifier: Some(linear_issue_identifier),
                        linear_url: Some(linear_url),
                        linear_state_id,
                        linear_sync_pending: sync_pending,
                        ..b.issues[i]
                    },
                ),
            )
        },
    }
}

/// A row without any trace of a link.
pub open spec fn unlinked_row(row: IssueRowModel) -> IssueRowModel {
    IssueRowModel {
        linear_issue_id: None,
        linear_issue_identifier: None,
        linear_url: None,
        linear_state_id: None,
        linear_sync_pending: false,
        ..row
    }
}

/// The board after a card was unlinked.
pub open spec fn unlinking(b: BoardModel, id: Uuid) -> BoardModel {
    match b.issue_at(id) {
        Some(i) => b.with_issue(i, unlinked_row(b.issues[i])),
        None => b,
    }
}

impl Board {
    /// Finds a card, as long as it is in the column that is expected.
    fn find_still_in(&self, id: Uuid, expected_status_id: Uuid) -> (r: Option<usize>)
        ensures
            match r {
                Some(i) => i < self.issues@.len() && still_in(self@, id, expected_status_id)
                    == Some(i as int),
                None => still_in(self@, id, expected_status_id) is None,
            },
    {
        match self.find_issue(id) {
            Some(i) => {
                assert(self@.issues[i as int] == self.issues@[i as int]@);
                if self.issues[i].status_id == expected_status_id {
                    Some(i)
                } else {
                    None
                }
            },
            None => None,
        }
    }
}

/// Whether a card other than the one at `i` mirrors a Linear issue.
fn has_link_elsewhere(board: &Board, i: usize, linear_issue_id: &str) -> (r: bool)
    ensures
        r == linked_elsewhere(board@, i as int, linear_issue_id@),
{
    for j in 0..board.issues.len()
        invariant
            forall|k: int|
                0 <= k < j && k != i ==> (#[trigger] board@.issues[k]).linear_issue_id != Some(
                    linear_issue_id@,
                ),
    {
        assert(board@.issues[j as int] == board.issues@[j as int]@);
        if j != i && text::is_some_text(&board.issues[j].linear_issue_id, linear_issue_id) {
            return true;
        }
    }
    false
}

impl Issues {
    /// Notes that the column of a card was written to Linear as a state. Nothing
    /// happens where the card has left that column: its mark is then for the new
    /// one.
    pub fn mark_linear_synced(
        board: &mut Board,
        id: Uuid,
        expected_status_id: Uuid,
        state_id: &str,
    )
        ensures
            final(board)@ == synced(old(board)@, id, expected_status_id, state_id@),
    {
        if let Some(i) = board.find_still_in(id, expected_status_id) {
            let ghost before = board@;
            board.issues[i].linear_sync_pending = false;
            board.issues[i].linear_state_id = Some(state_id.to_owned());
            assert(board@ =~= synced(before, id, expected_status_id, state_id@)) by {
                assert(before.issues[i as int] == old(board).issues@[i as int]@);
                assert(board@.issues =~= synced(before, id, expected_status_id, state_id@).issues);
            }
        }
    }

    /// Gives up the mark of a card. Nothing happens where the card has left the
    /// column: its mark is then for the new one.
    pub fn clear_linear_pending(board: &mut Board, id: Uuid, expected_status_id: Uuid)
        ensures
            final(board)@ == cleared(old(board)@, id, expected_status_id),
    {
        if let Some(i) = board.find_still_in(id, expected_status_id) {
            let ghost before = board@;
            board.issues[i].linear_sync_pending = false;
            assert(board@ =~= cleared(before, id, expected_status_id)) by {
                assert(before.issues[i as int] == old(board).issues@[i as int]@);
                assert(board@.issues =~= cleared(before, id, expected_status_id).issues);
            }
        }
    }

    /// Links a card to a Linear issue, whose state is noted; `sync_pending` says
    /// whether the column has yet to be written there. An issue that another card
    /// mirrors is refused.
    pub fn link_linear(
        board: &mut Board,
        id: Uuid,
        linear_issue_id: &str,
        linear_issue_identifier: &str,
        linear_url: &str,
        linear_state_id: Option<&str>,
        sync_pending: bool,
    ) -> (r: Result<(), BoardError>)
        ensures
            ({
                let outcome = linking(
                    old(board)@,
                    id,
                    linear_issue_id@,
                    linear_issue_identifier@,
                    linear_url@,
                    text::opt_str(linear_state_id),
                    sync_pending,
                );
                match r {
                    Ok(_) => outcome == done(final(board)@),
                    Err(e) => outcome == refused(e) && final(board)@ == old(board)@,
                }
            }),
    {
        match board.find_issue(id) {
            None => Ok(()),
            Some(i) => {
                if has_link_elsewhere(board, i, linear_issue_id) {
                    return Err(BoardError::UniqueViolation);
                }
                let ghost before = board@;
                assert(before.issues[i as int] == board.issues@[i as int]@);
                board.issues[i].linear_issue_id = Some(linear_issue_id.to_owned());
                board.issues[i].linear_issue_identifier = Some(linear_issue_identifier.to_owned());
                board.issues[i].linear_url = Some(linear_url.to_owned());
                board.issues[i].linear_state_id = text::own_option(linear_state_id);
                board.issues[i].linear_sync_pending = sync_pending;
                proof {
                    let row = IssueRowModel {
                        linear_issue_id: Some(linear_issue_id@),
                        linear_issue_identifier: Some(linear_issue_identifier@),
                        linear_url: Some(linear_url@),
                        linear_state_id: text::opt_str(linear_state_id),
                        linear_sync_pending: sync_pending,
                        ..before.issues[i as int]
                    };
                    assert(board.issues@[i as int]@ == row);
                    assert(board@.issues =~= before.issues.update(i as int, row));
                    assert(board@ =~= before.with_issue(i as int, row));
                }
                Ok(())
            },
        }
    }

    /// Unlinks a card: every field of the link and the mark go.
    pub fn unlink_linear(board: &mut Board, id: Uuid)
        ensures
            final(board)@ == unlinking(old(board)@, id),
    {
        if let Some(i) = board.find_issue(id) {
            let ghost before = board@;
            assert(before.issues[i as int] == board.issues@[i as int]@);
            board.issues[i].linear_issue_id = None;
            board.issues[i].linear_issue_identifier = None;
            board.issues[i].linear_url = None;
            board.issues[i].linear_state_id = None;
            board.issues[i].linear_sync_pending = false;
            proof {
                let row = unlinked_row(before.issues[i as int]);
                assert(board.issues@[i as int]@ == row);
                assert(board@.issues =~= before.issues.update(i as int, row));
                assert(board@ =~= before.with_issue(i as int, row));
            }
        }
    }
}

} // verus!
