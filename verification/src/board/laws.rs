//! What holds of the board whatever is done with it.
use vstd::prelude::*;

use crate::board::changes::{
    any_wakes, changed_row, issue_change, issue_changes, issue_removal, wakes,
};
use crate::board::import::{
    import_progress, import_status, is_leftmost, left_of, fits, ImportProgress,
    ImportSetting,
};
use crate::board::issues::{
    creation, found, insertion, issue_keys, issue_of, issues_of, issues_on, new_row, next_number,
    ordered_issues, page, search_answer, sought,
};
use crate::board::links::{
    awaits_push, cleared, has_badge, linked_elsewhere, linking, pending_pushes, push_of, synced,
    unlinked_row, unlinking,
};
use crate::board::projects::{
    bound, is_last_order, last_order, new_project, project_change, project_changes,
    project_creation, with_variant,
};
use crate::board::records::{
    CreateIssueRequest, CreateProjectRequest, ImportCardModel, IssueModel, IssueRowModel,
    PendingLinearSyncModel, ProjectRowModel, ProjectStatusModel, SearchIssuesRequest,
    UpdateIssueRequest, UpdateProjectRequest, UpdateProjectStatusRequest, LOCAL_ORG_ID,
};
use crate::board::statuses::{
    default_status, has_columns, seeded, seeding, status_change, status_changes, status_insertion,
    status_removal, DEFAULT_STATUS_COUNT,
};
use crate::board::{lemma_first_index, BoardModel};
use crate::ids::Uuid;
use crate::lists;
use crate::order;
use crate::time::Timestamp;

verus! {

// ---------------------------------------------------------------------------
// The invariant of the tables
// ---------------------------------------------------------------------------
impl BoardModel {
    /// Cards have identifiers of their own.
    pub open spec fn issue_ids_unique(self) -> bool {
        forall|i: int, j: int|
            0 <= i < j < self.issues.len() ==> (#[trigger] self.issues[i]).id != (
            #[trigger] self.issues[j]).id
    }

    /// Cards of one board have numbers of their own.
    pub open spec fn numbers_unique(self) -> bool {
        forall|i: int, j: int|
            0 <= i < j < self.issues.len() ==> !((#[trigger] self.issues[i]).project_id == (
            #[trigger] self.issues[j]).project_id && self.issues[i].issue_number
                == self.issues[j].issue_number)
    }

    /// No Linear issue is mirrored by two cards.
    pub open spec fn links_unique(self) -> bool {
        forall|i: int, j: int|
            0 <= i < j < self.issues.len() && (#[trigger] self.issues[i]).linear_issue_id is Some
                ==> self.issues[i].linear_issue_id != (#[trigger] self.issues[j]).linear_issue_id
    }

    /// A card's column is there.
    pub open spec fn columns_exist(self) -> bool {
        forall|i: int|
            0 <= i < self.issues.len() ==> self.status_at((#[trigger] self.issues[i]).status_id)
                is Some
    }

    /// Only a linked card waits to be written to Linear, and a linked card has what
    /// its badge shows.
    pub open spec fn links_whole(self) -> bool {
        forall|i: int|
            0 <= i < self.issues.len() ==> {
                let r = #[trigger] self.issues[i];
                &&& r.linear_sync_pending ==> r.linear_issue_id is Some
                &&& r.linear_issue_id is Some ==> has_badge(r)
            }
    }

    /// What the operations of the board keep.
    pub open spec fn wf(self) -> bool {
        &&& self.issue_ids_unique()
        &&& self.numbers_unique()
        &&& self.links_unique()
        &&& self.columns_exist()
        &&& self.links_whole()
    }
}

/// A board with nothing on it is well formed.
pub proof fn law_empty_board_is_well_formed(b: BoardModel)
    requires
        b.issues.len() == 0,
    ensures
        b.wf(),
{
}

/// A column stays where it is while columns are added.
proof fn lemma_status_stays(b: BoardModel, c: BoardModel, id: Uuid)
    requires
        b.statuses.len() <= c.statuses.len(),
        forall|i: int| 0 <= i < b.statuses.len() ==> (#[trigger] c.statuses[i]).id == b.statuses[i].id,
        b.status_at(id) is Some,
    ensures
        c.status_at(id) is Some,
{
    lemma_first_index(b.status_ids(), id);
    lemma_first_index(c.status_ids(), id);
    let i = b.status_at(id)->0;
    assert(b.status_ids()[i] == b.statuses[i].id);
    assert(c.status_ids()[i] == c.statuses[i].id);
}

/// The invariant depends on cards and on which columns there are.
proof fn lemma_wf_same_cards(b: BoardModel, c: BoardModel)
    requires
        b.wf(),
        c.issues == b.issues,
        b.statuses.len() <= c.statuses.len(),
        forall|i: int| 0 <= i < b.statuses.len() ==> (#[trigger] c.statuses[i]).id == b.statuses[i].id,
    ensures
        c.wf(),
{
    assert forall|i: int| 0 <= i < c.issues.len() implies c.status_at(
        (#[trigger] c.issues[i]).status_id,
    ) is Some by {
        assert(b.status_at(b.issues[i].status_id) is Some);
        lemma_status_stays(b, c, c.issues[i].status_id);
    }
}

/// Putting a row that has no fault into the table keeps the invariant.
proof fn lemma_wf_insertion(
    b: BoardModel,
    n: crate::board::issues::NumberModel,
    row: IssueRowModel,
)
    requires
        b.wf(),
        insertion(b, n, row) is Ok,
        row.linear_sync_pending ==> row.linear_issue_id is Some,
        row.linear_issue_id is Some ==> has_badge(row),
    ensures
        insertion(b, n, row)->Ok_0.wf(),
{
    let c = insertion(b, n, row)->Ok_0;
    lemma_first_index(b.issue_ids(), row.id);
    assert forall|i: int, j: int| 0 <= i < j < c.issues.len() implies (#[trigger] c.issues[i]).id
        != (#[trigger] c.issues[j]).id by {
        assert(b.issue_ids()[i] == b.issues[i].id);
    }
    assert forall|i: int, j: int|
        0 <= i < j < c.issues.len() implies !((#[trigger] c.issues[i]).project_id == (
    #[trigger] c.issues[j]).project_id && c.issues[i].issue_number == c.issues[j].issue_number) by {
        if j == b.issues.len() {
            assert(!b.number_taken(row.project_id, row.issue_number));
            assert(b.issues[i] == c.issues[i]);
        } else {
            assert(b.issues[i] == c.issues[i] && b.issues[j] == c.issues[j]);
        }
    }
    assert forall|i: int, j: int|
        0 <= i < j < c.issues.len() && (#[trigger] c.issues[i]).linear_issue_id is Some implies
        c.issues[i].linear_issue_id != (#[trigger] c.issues[j]).linear_issue_id by {
        assert(b.issues[i] == c.issues[i]);
        if j < b.issues.len() {
            assert(b.issues[j] == c.issues[j]);
        }
    }
    assert forall|i: int| 0 <= i < c.issues.len() implies c.status_at(
        (#[trigger] c.issues[i]).status_id,
    ) is Some by {
        assert(c.status_ids() == b.status_ids());
        if i < b.issues.len() {
            assert(b.issues[i] == c.issues[i]);
        }
    }
    assert forall|i: int| 0 <= i < c.issues.len() implies {
        let r = #[trigger] c.issues[i];
        &&& r.linear_sync_pending ==> r.linear_issue_id is Some
        &&& r.linear_issue_id is Some ==> has_badge(r)
    } by {
        if i < b.issues.len() {
            assert(b.issues[i] == c.issues[i]);
        }
    }
}

/// Replacing a card by one with the same identity, a column that is there and a
/// whole link that no other card has keeps the invariant.
proof fn lemma_wf_with_issue(b: BoardModel, i: int, row: IssueRowModel)
    requires
        b.wf(),
        0 <= i < b.issues.len(),
        row.id == b.issues[i].id,
        row.project_id == b.issues[i].project_id,
        row.issue_number == b.issues[i].issue_number,
        b.status_at(row.status_id) is Some,
        row.linear_issue_id matches Some(l) ==> !linked_elsewhere(b, i, l),
        row.linear_sync_pending ==> row.linear_issue_id is Some,
        row.linear_issue_id is Some ==> has_badge(row),
    ensures
        b.with_issue(i, row).wf(),
{
    let c = b.with_issue(i, row);
    assert forall|j: int, k: int| 0 <= j < k < c.issues.len() implies (#[trigger] c.issues[j]).id
        != (#[trigger] c.issues[k]).id by {
        assert(b.issues[j].id != b.issues[k].id);
    }
    assert forall|j: int, k: int|
        0 <= j < k < c.issues.len() implies !((#[trigger] c.issues[j]).project_id == (
    #[trigger] c.issues[k]).project_id && c.issues[j].issue_number == c.issues[k].issue_number) by {
        assert(!(b.issues[j].project_id == b.issues[k].project_id && b.issues[j].issue_number
            == b.issues[k].issue_number));
    }
    assert forall|j: int, k: int|
        0 <= j < k < c.issues.len() && (#[trigger] c.issues[j]).linear_issue_id is Some implies
        c.issues[j].linear_issue_id != (#[trigger] c.issues[k]).linear_issue_id by {
        if j == i {
            assert(b.issues[k].linear_issue_id != Some(row.linear_issue_id->0));
        } else if k == i {
            if row.linear_issue_id is Some {
                assert(b.issues[j].linear_issue_id != Some(row.linear_issue_id->0));
            }
        } else {
            assert(b.issues[j].linear_issue_id != b.issues[k].linear_issue_id);
        }
    }
    assert forall|j: int| 0 <= j < c.issues.len() implies c.status_at(
        (#[trigger] c.issues[j]).status_id,
    ) is Some by {
        assert(c.status_ids() == b.status_ids());
        assert(b.status_at(b.issues[j].status_id) is Some);
    }
    assert forall|j: int| 0 <= j < c.issues.len() implies {
        let r = #[trigger] c.issues[j];
        &&& r.linear_sync_pending ==> r.linear_issue_id is Some
        &&& r.linear_issue_id is Some ==> has_badge(r)
    } by {
        if j != i {
            assert(c.issues[j] == b.issues[j]);
        }
    }
}

/// A card's own link is not that of another.
proof fn lemma_own_link(b: BoardModel, i: int)
    requires
        b.wf(),
        0 <= i < b.issues.len(),
    ensures
        b.issues[i].linear_issue_id matches Some(l) ==> !linked_elsewhere(b, i, l),
{
    if let Some(l) = b.issues[i].linear_issue_id {
        assert forall|j: int|
            0 <= j < b.issues.len() && j != i implies (#[trigger] b.issues[j]).linear_issue_id
            != Some(l) by {
            if j < i {
                assert(b.issues[j].linear_issue_id is Some ==> b.issues[j].linear_issue_id
                    != b.issues[i].linear_issue_id);
            } else {
                assert(b.issues[i].linear_issue_id != b.issues[j].linear_issue_id);
            }
        }
    }
}

/// Creating a card keeps the invariant.
pub proof fn law_creation_keeps_wf(
    b: BoardModel,
    req: CreateIssueRequest,
    id: Uuid,
    creator_user_id: Option<Uuid>,
    now: Timestamp,
)
    requires
        b.wf(),
    ensures
        creation(b, req, id, creator_user_id, now) matches Ok(c) ==> c.wf(),
{
    if let Ok(n) = next_number(b, req.project_id) {
        let row = new_row(req, id, creator_user_id, n, now);
        if insertion(b, n, row) is Ok {
            lemma_wf_insertion(b, n, row);
        }
    }
}

/// Changing a card keeps the invariant.
pub proof fn law_change_keeps_wf(
    b: BoardModel,
    id: Uuid,
    req: UpdateIssueRequest,
    now: Timestamp,
)
    requires
        b.wf(),
    ensures
        issue_change(b, id, req, now) matches Ok(c) ==> c.wf(),
{
    lemma_first_index(b.issue_ids(), id);
    if let Some(i) = b.issue_at(id) {
        let row = changed_row(b.issues[i], req, now);
        lemma_own_link(b, i);
        if b.status_at(row.status_id) is Some {
            lemma_wf_with_issue(b, i, row);
        }
    }
}

/// Changing several cards keeps the invariant.
pub proof fn law_changes_keep_wf(
    b: BoardModel,
    updates: Seq<(Uuid, UpdateIssueRequest)>,
    now: Timestamp,
)
    requires
        b.wf(),
    ensures
        issue_changes(b, updates, now) matches Ok(c) ==> c.wf(),
    decreases updates.len(),
{
    if updates.len() > 0 {
        law_changes_keep_wf(b, updates.drop_last(), now);
        if let Ok(c) = issue_changes(b, updates.drop_last(), now) {
            law_change_keeps_wf(c, updates.last().0, updates.last().1, now);
        }
    }
}

/// Removing a card keeps the invariant.
pub proof fn law_removal_keeps_wf(b: BoardModel, id: Uuid)
    requires
        b.wf(),
    ensures
        issue_removal(b, id).0.wf(),
{
    lemma_first_index(b.issue_ids(), id);
    if let Some(i) = b.issue_at(id) {
        let c = issue_removal(b, id).0;
        assert forall|j: int| 0 <= j < c.issues.len() implies #[trigger] c.issues[j]
            == b.issues[if j < i { j } else { j + 1 }] by {}
        assert forall|j: int| 0 <= j < c.issues.len() implies c.status_at(
            (#[trigger] c.issues[j]).status_id,
        ) is Some by {
            assert(c.status_ids() == b.status_ids());
        }
    }
}

/// Writing to Linear, giving a mark up and unlinking keep the invariant.
pub proof fn law_mirror_keeps_wf(b: BoardModel, id: Uuid, status_id: Uuid, state_id: Seq<char>)
    requires
        b.wf(),
    ensures
        synced(b, id, status_id, state_id).wf(),
        cleared(b, id, status_id).wf(),
        unlinking(b, id).wf(),
{
    lemma_first_index(b.issue_ids(), id);
    if let Some(i) = b.issue_at(id) {
        let row = b.issues[i];
        assert(b.status_at(row.status_id) is Some);
        lemma_own_link(b, i);
        lemma_wf_with_issue(
            b,
            i,
            IssueRowModel { linear_sync_pending: false, linear_state_id: Some(state_id), ..row },
        );
        lemma_wf_with_issue(b, i, IssueRowModel { linear_sync_pending: false, ..row });
        lemma_wf_with_issue(b, i, unlinked_row(row));
    }
}

/// Linking a card keeps the invariant; in particular no issue comes to be
/// mirrored by two cards.
pub proof fn law_linking_keeps_wf(
    b: BoardModel,
    id: Uuid,
    linear_issue_id: Seq<char>,
    identifier: Seq<char>,
    url: Seq<char>,
    state_id: Option<Seq<char>>,
    sync_pending: bool,
)
    requires
        b.wf(),
    ensures
        linking(b, id, linear_issue_id, identifier, url, state_id, sync_pending) matches Ok(c)
            ==> c.wf(),
{
    lemma_first_index(b.issue_ids(), id);
    if let Some(i) = b.issue_at(id) {
        assert(b.status_at(b.issues[i].status_id) is Some);
        if !linked_elsewhere(b, i, linear_issue_id) {
            lemma_wf_with_issue(
                b,
                i,
                IssueRowModel {
                    linear_issue_id: Some(linear_issue_id),
                    linear_issue_identifier: Some(identifier),
                    linear_url: Some(url),
                    linear_state_id: state_id,
                    linear_sync_pending: sync_pending,
                    ..b.issues[i]
                },
            );
        }
    }
}

/// Importing cards keeps the invariant, also where it is stopped midway.
pub proof fn law_import_keeps_wf(
    b: BoardModel,
    cards: Seq<ImportCardModel>,
    setting: ImportSetting,
)
    requires
        b.wf(),
    ensures
        import_progress(b, cards, setting).board.wf(),
    decreases cards.len(),
{
    if cards.len() > 0 {
        law_import_keeps_wf(b, cards.drop_last(), setting);
        let s = import_progress(b, cards.drop_last(), setting);
        let card = cards.last();
        if let Ok(n) = next_number(s.board, setting.project_id) {
            let row = crate::board::import::imported_row(
                setting.project_id,
                card,
                setting.ids[cards.len() - 1],
                setting.slots[s.inserted],
                n,
                setting.now,
            );
            if insertion(s.board, n, row) is Ok {
                lemma_wf_insertion(s.board, n, row);
            }
            lemma_wf_same_cards(s.board, s.board.counted(n.position));
        }
    }
}

/// Adding, changing and removing columns keep the invariant: a column that goes
/// had no cards.
pub proof fn law_columns_keep_wf(
    b: BoardModel,
    row: ProjectStatusModel,
    id: Uuid,
    req: UpdateProjectStatusRequest,
)
    requires
        b.wf(),
    ensures
        status_insertion(b, row) matches Ok(c) ==> c.wf(),
        status_change(b, id, req) matches Ok(c) ==> c.wf(),
        status_removal(b, id) matches Ok(c) ==> c.wf(),
{
    if let Ok(c) = status_insertion(b, row) {
        lemma_wf_same_cards(b, c);
    }
    lemma_first_index(b.status_ids(), id);
    if let Ok(c) = status_change(b, id, req) {
        lemma_wf_same_cards(b, c);
    }
    if let Some(i) = b.status_at(id) {
        if let Ok(c) = status_removal(b, id) {
            assert forall|k: int| 0 <= k < c.issues.len() implies c.status_at(
                (#[trigger] c.issues[k]).status_id,
            ) is Some by {
                let s = b.issues[k].status_id;
                assert(b.status_at(s) is Some);
                assert(s != id);
                lemma_first_index(b.status_ids(), s);
                lemma_first_index(c.status_ids(), s);
                let j = b.status_at(s)->0;
                assert(b.status_ids()[j] == b.statuses[j].id);
                assert(b.status_ids()[i] == b.statuses[i].id);
                assert(j != i);
                let m = if j < i { j } else { j - 1 };
                assert(c.statuses[m] == b.statuses[j]);
                assert(c.status_ids()[m] == s);
            }
        }
    }
}

/// Changing several columns keeps the invariant.
pub proof fn law_column_changes_keep_wf(
    b: BoardModel,
    updates: Seq<(Uuid, UpdateProjectStatusRequest)>,
)
    requires
        b.wf(),
    ensures
        status_changes(b, updates) matches Ok(c) ==> c.wf(),
    decreases updates.len(),
{
    if updates.len() > 0 {
        law_column_changes_keep_wf(b, updates.drop_last());
        if let Ok(c) = status_changes(b, updates.drop_last()) {
            if c.statuses.len() > 0 {
                law_columns_keep_wf(c, c.statuses[0], updates.last().0, updates.last().1);
            } else {
                lemma_first_index(c.status_ids(), updates.last().0);
            }
        }
    }
}

/// Seeding columns keeps the invariant, also where it is stopped midway.
pub proof fn law_seeding_keeps_wf(
    b: BoardModel,
    project_id: Uuid,
    ids: Seq<Uuid>,
    now: Timestamp,
    k: nat,
)
    requires
        b.wf(),
    ensures
        seeding(b, project_id, ids, now, k).board.wf(),
    decreases k,
{
    if k > 0 {
        law_seeding_keeps_wf(b, project_id, ids, now, (k - 1) as nat);
        let s = seeding(b, project_id, ids, now, (k - 1) as nat);
        if let Ok(c) = status_insertion(s.board, default_status(project_id, ids, now, k - 1)) {
            lemma_wf_same_cards(s.board, c);
        }
    }
}

/// Creating, changing and binding boards keep the invariant.
pub proof fn law_projects_keep_wf(
    b: BoardModel,
    req: CreateProjectRequest,
    id: Uuid,
    status_ids: Seq<Uuid>,
    change: UpdateProjectRequest,
    key: Option<Seq<char>>,
    now: Timestamp,
)
    requires
        b.wf(),
    ensures
        project_creation(b, req, id, status_ids, now) matches Ok(c) ==> c.wf(),
        project_change(b, id, change, now) matches Ok(c) ==> c.wf(),
        bound(b, id, key).wf(),
        with_variant(b, id, key).wf(),
{
    let p = new_project(b, req, id, now);
    let c = BoardModel { projects: b.projects.push(p), ..b };
    lemma_wf_same_cards(b, c);
    law_seeding_keeps_wf(c, id, status_ids, now, DEFAULT_STATUS_COUNT as nat);
    if let Ok(d) = project_change(b, id, change, now) {
        lemma_wf_same_cards(b, d);
    }
    lemma_wf_same_cards(b, bound(b, id, key));
    lemma_wf_same_cards(b, with_variant(b, id, key));
}

/// Changing several boards keeps the invariant.
pub proof fn law_project_changes_keep_wf(
    b: BoardModel,
    updates: Seq<(Uuid, UpdateProjectRequest)>,
    now: Timestamp,
)
    requires
        b.wf(),
    ensures
        project_changes(b, updates, now) matches Ok(c) ==> c.wf(),
    decreases updates.len(),
{
    if updates.len() > 0 {
        law_project_changes_keep_wf(b, updates.drop_last(), now);
        if let Ok(c) = project_changes(b, updates.drop_last(), now) {
            if let Ok(d) = project_change(c, updates.last().0, updates.last().1, now) {
                lemma_wf_same_cards(c, d);
            }
        }
    }
}

// ---------------------------------------------------------------------------
// The marks of what has yet to be written to Linear
// ---------------------------------------------------------------------------
/// A change of a card marks it when, and only when, it is linked and its column
/// changes; a mark that was there stays, and no other card is touched.
pub proof fn law_change_marks_moved_cards(
    b: BoardModel,
    id: Uuid,
    req: UpdateIssueRequest,
    now: Timestamp,
)
    ensures
        issue_change(b, id, req, now) matches Ok(c) ==> {
            &&& b.issue_at(id) matches Some(i)
            &&& c.issues.len() == b.issues.len()
            &&& c.issues[i].linear_sync_pending <==> (b.issues[i].linear_sync_pending || (
            b.issues[i].linear_issue_id is Some && c.issues[i].status_id
                != b.issues[i].status_id))
            &&& forall|j: int|
                0 <= j < b.issues.len() && j != i ==> #[trigger] c.issues[j] == b.issues[j]
        },
{
    lemma_first_index(b.issue_ids(), id);
}

/// Where a change has the mirror woken, the changed card is marked.
pub proof fn law_woken_mirror_has_a_card_to_push(
    b: BoardModel,
    id: Uuid,
    req: UpdateIssueRequest,
    now: Timestamp,
)
    requires
        wakes(b, id, req),
    ensures
        issue_change(b, id, req, now) matches Ok(c) ==> (b.issue_at(id) matches Some(i)
            && c.issues[i].linear_sync_pending && c.issues[i].linear_issue_id is Some),
{
    lemma_first_index(b.issue_ids(), id);
}

/// Where changes leave a card marked that was not, they have the mirror woken, be
/// it one change or many.
pub proof fn law_new_marks_wake_the_mirror(
    b: BoardModel,
    updates: Seq<(Uuid, UpdateIssueRequest)>,
    now: Timestamp,
    j: int,
)
    requires
        issue_changes(b, updates, now) is Ok,
        0 <= j < b.issues.len(),
        !b.issues[j].linear_sync_pending,
    ensures
        issue_changes(b, updates, now)->Ok_0.issues.len() == b.issues.len(),
        issue_changes(b, updates, now)->Ok_0.issues[j].linear_sync_pending ==> any_wakes(
            b,
            updates,
            now,
        ),
    decreases updates.len(),
{
    if updates.len() > 0 {
        let c = issue_changes(b, updates.drop_last(), now)->Ok_0;
        law_new_marks_wake_the_mirror(b, updates.drop_last(), now, j);
        law_change_marks_moved_cards(c, updates.last().0, updates.last().1, now);
    }
}

/// The mirror's own writes never mark a card: what is marked afterwards was
/// marked before.
pub proof fn law_mirror_never_marks(
    b: BoardModel,
    id: Uuid,
    status_id: Uuid,
    state_id: Seq<char>,
    j: int,
)
    requires
        0 <= j < b.issues.len(),
    ensures
        synced(b, id, status_id, state_id).issues[j].linear_sync_pending
            ==> b.issues[j].linear_sync_pending,
        cleared(b, id, status_id).issues[j].linear_sync_pending
            ==> b.issues[j].linear_sync_pending,
        unlinking(b, id).issues[j].linear_sync_pending ==> b.issues[j].linear_sync_pending,
{
    lemma_first_index(b.issue_ids(), id);
}

/// A push changes the board only while the card is in the column that was
/// pushed: a card that was moved meanwhile keeps its mark, for the new column.
pub proof fn law_moved_card_keeps_its_mark(
    b: BoardModel,
    id: Uuid,
    pushed_status_id: Uuid,
    state_id: Seq<char>,
    i: int,
)
    requires
        b.issue_at(id) == Some(i),
        b.issues[i].status_id != pushed_status_id,
    ensures
        synced(b, id, pushed_status_id, state_id) == b,
        cleared(b, id, pushed_status_id) == b,
{
}

/// The cards that await a push, by what they are.
proof fn lemma_pending_contains(b: BoardModel, p: PendingLinearSyncModel)
    ensures
        pending_pushes(b).contains(p) <==> exists|i: int|
            0 <= i < b.issues.len() && awaits_push(b, #[trigger] b.issues[i]) && p == push_of(
                b,
                b.issues[i],
            ),
{
    let keep = |r: IssueRowModel| awaits_push(b, r);
    let rows = b.issues.filter(keep);
    let all = pending_pushes(b);
    if all.contains(p) {
        let k = choose|k: int| 0 <= k < all.len() && all[k] == p;
        lists::lemma_filter_contains(b.issues, keep, rows[k]);
        assert(rows.contains(rows[k]));
        let i = choose|i: int| 0 <= i < b.issues.len() && b.issues[i] == rows[k];
        assert(awaits_push(b, b.issues[i]));
    }
    if exists|i: int|
        0 <= i < b.issues.len() && awaits_push(b, #[trigger] b.issues[i]) && p == push_of(
            b,
            b.issues[i],
        ) {
        let i = choose|i: int|
            0 <= i < b.issues.len() && awaits_push(b, #[trigger] b.issues[i]) && p == push_of(
                b,
                b.issues[i],
            );
        lists::lemma_filter_contains(b.issues, keep, b.issues[i]);
        assert(b.issues.contains(b.issues[i]));
        let k = choose|k: int| 0 <= k < rows.len() && rows[k] == b.issues[i];
        assert(all[k] == p);
    }
}

/// A linked card that is moved is among the cards that await a push, with its new
/// column.
pub proof fn law_moved_card_awaits_push(
    b: BoardModel,
    id: Uuid,
    req: UpdateIssueRequest,
    now: Timestamp,
    i: int,
)
    requires
        b.issue_at(id) == Some(i),
        b.issues[i].linear_issue_id is Some,
        b.project_at(b.issues[i].project_id) is Some,
        req.status_id matches Some(s) && s != b.issues[i].status_id,
        issue_change(b, id, req, now) is Ok,
    ensures
        ({
            let c = issue_change(b, id, req, now)->Ok_0;
            &&& c.issues[i].status_id == req.status_id->0
            &&& pending_pushes(c).contains(push_of(c, c.issues[i]))
        }),
{
    lemma_first_index(b.issue_ids(), id);
    let c = issue_change(b, id, req, now)->Ok_0;
    assert(c.project_ids() == b.project_ids());
    assert(awaits_push(c, c.issues[i]));
    lemma_pending_contains(c, push_of(c, c.issues[i]));
}

/// A card whose column was written, whose mark was given up or that was unlinked
/// is not among those that await a push.
pub proof fn law_settled_card_awaits_nothing(
    b: BoardModel,
    id: Uuid,
    status_id: Uuid,
    state_id: Seq<char>,
    i: int,
    p: PendingLinearSyncModel,
)
    requires
        b.wf(),
        b.issue_at(id) == Some(i),
        b.issues[i].status_id == status_id,
        p.id == id,
    ensures
        !pending_pushes(synced(b, id, status_id, state_id)).contains(p),
        !pending_pushes(cleared(b, id, status_id)).contains(p),
        !pending_pushes(unlinking(b, id)).contains(p),
{
    lemma_first_index(b.issue_ids(), id);
    assert(b.issue_ids()[i] == b.issues[i].id);
    lemma_pending_contains(synced(b, id, status_id, state_id), p);
    lemma_pending_contains(cleared(b, id, status_id), p);
    lemma_pending_contains(unlinking(b, id), p);
    assert forall|j: int| 0 <= j < b.issues.len() && j != i implies (#[trigger] b.issues[j]).id
        != id by {
        if j < i {
            assert(b.issues[j].id != b.issues[i].id);
        } else {
            assert(b.issues[i].id != b.issues[j].id);
        }
    }
}

/// An unlinked card has no trace of its link, and the rest of it is as it was.
pub proof fn law_unlinking_leaves_no_trace(b: BoardModel, id: Uuid, i: int)
    requires
        b.issue_at(id) == Some(i),
    ensures
        unlinking(b, id).issues[i] == (IssueRowModel {
            linear_issue_id: None,
            linear_issue_identifier: None,
            linear_url: None,
            linear_state_id: None,
            linear_sync_pending: false,
            ..b.issues[i]
        }),
        forall|j: int|
            0 <= j < b.issues.len() && j != i ==> #[trigger] unlinking(b, id).issues[j]
                == b.issues[j],
{
    lemma_first_index(b.issue_ids(), id);
}

// ---------------------------------------------------------------------------
// Imports
// ---------------------------------------------------------------------------
/// Counting a card changes nothing of what awaits a push.
proof fn lemma_counted_same_pushes(b: BoardModel, p: int)
    requires
        0 <= p < b.projects.len(),
    ensures
        pending_pushes(b.counted(p)) == pending_pushes(b),
{
    let c = b.counted(p);
    assert(c.project_ids() =~= b.project_ids());
    let keep = |r: IssueRowModel| awaits_push(b, r);
    let keep2 = |r: IssueRowModel| awaits_push(c, r);
    assert(keep =~= keep2);
    assert(pending_pushes(c) =~= pending_pushes(b)) by {
        let rows = b.issues.filter(keep);
        assert forall|k: int| 0 <= k < rows.len() implies push_of(c, #[trigger] rows[k]) == push_of(
            b,
            rows[k],
        ) by {
            b.issues.lemma_filter_pred(keep, k);
            lemma_first_index(b.project_ids(), rows[k].project_id);
        }
    }
}

/// A row that has nothing to be written changes nothing of what awaits a push.
proof fn lemma_quiet_row_same_pushes(b: BoardModel, row: IssueRowModel)
    requires
        !row.linear_sync_pending,
    ensures
        pending_pushes(BoardModel { issues: b.issues.push(row), ..b }) == pending_pushes(b),
{
    let c = BoardModel { issues: b.issues.push(row), ..b };
    let keep = |r: IssueRowModel| awaits_push(b, r);
    let keep2 = |r: IssueRowModel| awaits_push(c, r);
    assert(keep =~= keep2);
    b.issues.lemma_filter_push(row, keep);
    assert(c.issues.filter(keep) == b.issues.filter(keep));
    assert(pending_pushes(c) =~= pending_pushes(b));
}

/// An import changes nothing of what awaits a push: no imported card is echoed
/// back to Linear.
pub proof fn law_import_is_not_echoed(
    b: BoardModel,
    cards: Seq<ImportCardModel>,
    setting: ImportSetting,
)
    ensures
        pending_pushes(import_progress(b, cards, setting).board) == pending_pushes(b),
    decreases cards.len(),
{
    if cards.len() > 0 {
        law_import_is_not_echoed(b, cards.drop_last(), setting);
        let s = import_progress(b, cards.drop_last(), setting);
        if let Ok(n) = next_number(s.board, setting.project_id) {
            lemma_first_index(s.board.project_ids(), setting.project_id);
            lemma_counted_same_pushes(s.board, n.position);
            let row = crate::board::import::imported_row(
                setting.project_id,
                cards.last(),
                setting.ids[cards.len() - 1],
                setting.slots[s.inserted],
                n,
                setting.now,
            );
            lemma_quiet_row_same_pushes(s.board.counted(n.position), row);
        }
    }
}

/// An import only adds cards: those that were there are as they were.
pub proof fn law_import_only_adds(
    b: BoardModel,
    cards: Seq<ImportCardModel>,
    setting: ImportSetting,
)
    ensures
        ({
            let s = import_progress(b, cards, setting);
            &&& s.board.issues.len() == b.issues.len() + s.inserted
            &&& 0 <= s.inserted <= cards.len()
            &&& s.board.issues.take(b.issues.len() as int) == b.issues
            &&& s.board.statuses == b.statuses
        }),
    decreases cards.len(),
{
    if cards.len() > 0 {
        law_import_only_adds(b, cards.drop_last(), setting);
        let s = import_progress(b, cards.drop_last(), setting);
        let t = import_progress(b, cards, setting);
        assert(t.board.issues.take(b.issues.len() as int) =~= s.board.issues.take(
            b.issues.len() as int,
        ));
    } else {
        assert(b.issues.take(b.issues.len() as int) =~= b.issues);
    }
}

/// After an import that was not stopped every issue of it is mirrored by a card.
pub proof fn law_import_links_every_issue(
    b: BoardModel,
    cards: Seq<ImportCardModel>,
    setting: ImportSetting,
)
    requires
        import_progress(b, cards, setting).error is None,
    ensures
        forall|k: int|
            0 <= k < cards.len() ==> import_progress(b, cards, setting).board.linked(
                (#[trigger] cards[k]).linear_issue_id,
            ),
    decreases cards.len(),
{
    if cards.len() > 0 {
        let front = cards.drop_last();
        let s = import_progress(b, front, setting);
        let t = import_progress(b, cards, setting);
        assert(s.error is None);
        law_import_links_every_issue(b, front, setting);
        law_import_only_adds(b, front, setting);
        let grown = t.board.issues;
        assert(s.board.issues.len() <= grown.len());
        assert forall|i: int| 0 <= i < s.board.issues.len() implies #[trigger] grown[i]
            == s.board.issues[i] by {}
        assert forall|k: int| 0 <= k < cards.len() implies t.board.linked(
            (#[trigger] cards[k]).linear_issue_id,
        ) by {
            let l = cards[k].linear_issue_id;
            if k < front.len() {
                assert(front[k] == cards[k]);
                assert(s.board.linked(l));
                let i = choose|i: int|
                    0 <= i < s.board.issues.len() && (
                    #[trigger] s.board.issues[i]).linear_issue_id == Some(l);
                assert(grown[i].linear_issue_id == Some(l));
            } else if b.linked(l) {
                let i = choose|i: int|
                    0 <= i < b.issues.len() && (#[trigger] b.issues[i]).linear_issue_id == Some(l);
                assert(s.board.issues.take(b.issues.len() as int)[i] == b.issues[i]);
                assert(grown[i].linear_issue_id == Some(l));
            } else if s.board.linked(l) {
                let i = choose|i: int|
                    0 <= i < s.board.issues.len() && (
                    #[trigger] s.board.issues[i]).linear_issue_id == Some(l);
                assert(grown[i].linear_issue_id == Some(l));
            } else {
                assert(grown[s.board.issues.len() as int].linear_issue_id == Some(l));
            }
        }
    }
}

/// An import of issues that are mirrored already does nothing at all.
pub proof fn law_mirrored_issues_are_passed_over(
    b: BoardModel,
    cards: Seq<ImportCardModel>,
    setting: ImportSetting,
)
    requires
        forall|k: int| 0 <= k < cards.len() ==> b.linked((#[trigger] cards[k]).linear_issue_id),
    ensures
        import_progress(b, cards, setting) == (ImportProgress {
            board: b,
            inserted: 0,
            error: None,
        }),
    decreases cards.len(),
{
    if cards.len() > 0 {
        assert(b.linked(cards[cards.len() - 1].linear_issue_id));
        law_mirrored_issues_are_passed_over(b, cards.drop_last(), setting);
    }
}

/// Importing the same issues once more does nothing, whatever the identifiers,
/// the positions and the time: imports do not duplicate cards.
pub proof fn law_import_is_idempotent(
    b: BoardModel,
    cards: Seq<ImportCardModel>,
    first: ImportSetting,
    second: ImportSetting,
)
    requires
        import_progress(b, cards, first).error is None,
    ensures
        ({
            let once = import_progress(b, cards, first).board;
            import_progress(once, cards, second) == (ImportProgress {
                board: once,
                inserted: 0,
                error: None,
            })
        }),
{
    law_import_links_every_issue(b, cards, first);
    law_mirrored_issues_are_passed_over(
        import_progress(b, cards, first).board,
        cards,
        second,
    );
}

/// There is a leftmost column that fits wherever a column fits.
pub(crate) proof fn lemma_leftmost_exists(
    statuses: Seq<ProjectStatusModel>,
    state_map: Map<Seq<char>, Seq<char>>,
    wanted: Option<Seq<char>>,
    k: int,
)
    requires
        0 <= k < statuses.len(),
        fits(state_map, wanted, statuses[k]),
    ensures
        exists|i: int| is_leftmost(statuses, state_map, wanted, i),
    decreases statuses.len(),
{
    let front = statuses.drop_last();
    let last = statuses.last();
    let n = statuses.len() - 1;
    if exists|j: int| 0 <= j < n && fits(state_map, wanted, #[trigger] front[j]) {
        let j = choose|j: int| 0 <= j < n && fits(state_map, wanted, #[trigger] front[j]);
        lemma_leftmost_exists(front, state_map, wanted, j);
        let i = choose|i: int| is_leftmost(front, state_map, wanted, i);
        if fits(state_map, wanted, last) && left_of(last, front[i]) {
            assert forall|m: int|
                0 <= m < statuses.len() && fits(
                    state_map,
                    wanted,
                    #[trigger] statuses[m],
                ) implies !left_of(statuses[m], statuses[n]) && (m < n ==> left_of(
                statuses[n],
                statuses[m],
            )) by {
                if m < n {
                    assert(front[m] == statuses[m]);
                }
            }
            assert(is_leftmost(statuses, state_map, wanted, n));
        } else {
            assert forall|m: int|
                0 <= m < statuses.len() && fits(
                    state_map,
                    wanted,
                    #[trigger] statuses[m],
                ) implies !left_of(statuses[m], statuses[i]) && (m < i ==> left_of(
                statuses[i],
                statuses[m],
            )) by {
                if m < n {
                    assert(front[m] == statuses[m]);
                }
            }
            assert(is_leftmost(statuses, state_map, wanted, i));
        }
    } else {
        assert forall|m: int|
            0 <= m < statuses.len() && fits(
                state_map,
                wanted,
                #[trigger] statuses[m],
            ) implies m == n by {
            if m < n {
                assert(front[m] == statuses[m]);
            }
        }
        assert(is_leftmost(statuses, state_map, wanted, n));
    }
}

/// The column of an imported card is a visible one of the given columns, and
/// there is one wherever a column is visible.
pub proof fn law_import_status_is_visible(
    statuses: Seq<ProjectStatusModel>,
    state_map: Map<Seq<char>, Seq<char>>,
    incoming: Option<Seq<char>>,
)
    ensures
        import_status(statuses, state_map, incoming) matches Some(id) ==> exists|i: int|
            0 <= i < statuses.len() && !(#[trigger] statuses[i]).hidden && statuses[i].id == id,
        import_status(statuses, state_map, incoming) is None <==> forall|i: int|
            0 <= i < statuses.len() ==> (#[trigger] statuses[i]).hidden,
{
    if exists|i: int| 0 <= i < statuses.len() && !(#[trigger] statuses[i]).hidden {
        let i = choose|i: int| 0 <= i < statuses.len() && !(#[trigger] statuses[i]).hidden;
        assert(fits(state_map, None, statuses[i]));
        lemma_leftmost_exists(statuses, state_map, None, i);
    }
    if exists|i: int| is_leftmost(statuses, state_map, None, i) {
        let i = choose|i: int| is_leftmost(statuses, state_map, None, i);
        assert(!statuses[i].hidden);
    }
    if let Some(state) = incoming {
        if exists|i: int| is_leftmost(statuses, state_map, Some(state), i) {
            let i = choose|i: int| is_leftmost(statuses, state_map, Some(state), i);
            assert(!statuses[i].hidden);
        }
    }
}

/// Where a visible column is mapped to the state of an issue, the column of the
/// imported card is mapped to it.
pub proof fn law_import_status_honours_the_map(
    statuses: Seq<ProjectStatusModel>,
    state_map: Map<Seq<char>, Seq<char>>,
    state: Seq<char>,
    k: int,
)
    requires
        0 <= k < statuses.len(),
        fits(state_map, Some(state), statuses[k]),
    ensures
        import_status(statuses, state_map, Some(state)) matches Some(id) && state_map.dom().contains(
            id.key(),
        ) && state_map[id.key()] == state,
{
    lemma_leftmost_exists(statuses, state_map, Some(state), k);
    let i = choose|i: int| is_leftmost(statuses, state_map, Some(state), i);
    assert(fits(state_map, Some(state), statuses[i]));
}

// ---------------------------------------------------------------------------
// Numbers, columns and lists
// ---------------------------------------------------------------------------
/// The card that is created on a board after another gets the next number.
pub proof fn law_numbers_advance(
    b: BoardModel,
    req: CreateIssueRequest,
    id: Uuid,
    creator_user_id: Option<Uuid>,
    now: Timestamp,
)
    requires
        creation(b, req, id, creator_user_id, now) is Ok,
        0 <= b.projects[next_number(b, req.project_id)->Ok_0.position].issue_counter < i32::MAX - 1,
    ensures
        ({
            let c = creation(b, req, id, creator_user_id, now)->Ok_0;
            &&& next_number(c, req.project_id) matches Ok(n)
            &&& n.number == c.issues.last().issue_number + 1
        }),
{
    lemma_first_index(b.project_ids(), req.project_id);
    let c = creation(b, req, id, creator_user_id, now)->Ok_0;
    let p = b.project_at(req.project_id)->0;
    assert(c.project_ids() =~= b.project_ids());
    assert(c.organizations == b.organizations);
}

/// A board whose columns were seeded is not seeded again.
pub proof fn law_seeding_is_idempotent(
    b: BoardModel,
    project_id: Uuid,
    first: Seq<Uuid>,
    second: Seq<Uuid>,
    now: Timestamp,
    later: Timestamp,
)
    requires
        seeded(b, project_id, first, now).error is None,
    ensures
        ({
            let once = seeded(b, project_id, first, now).board;
            seeded(once, project_id, second, later).board == once && seeded(
                once,
                project_id,
                second,
                later,
            ).error is None
        }),
{
    if !has_columns(b, project_id) {
        let n = DEFAULT_STATUS_COUNT as nat;
        let s = seeding(b, project_id, first, now, n);
        let t = seeding(b, project_id, first, now, (n - 1) as nat);
        assert(t.error is None);
        let row = default_status(project_id, first, now, n - 1);
        assert(s.board.statuses == t.board.statuses.push(row));
        assert(s.board.statuses[t.board.statuses.len() as int].project_id == project_id);
        assert(has_columns(s.board, project_id));
    }
}

/// Seeding that is not stopped adds the default columns, in order, and nothing
/// else.
pub proof fn law_seeding_adds_the_default_columns(
    b: BoardModel,
    project_id: Uuid,
    ids: Seq<Uuid>,
    now: Timestamp,
    k: nat,
)
    requires
        seeding(b, project_id, ids, now, k).error is None,
    ensures
        seeding(b, project_id, ids, now, k).board == (BoardModel {
            statuses: b.statuses + Seq::new(
                k,
                |i: int| default_status(project_id, ids, now, i),
            ),
            ..b
        }),
    decreases k,
{
    let added = |n: nat| Seq::new(n, |i: int| default_status(project_id, ids, now, i));
    if k == 0 {
        assert(b.statuses + added(0) =~= b.statuses);
    } else {
        law_seeding_adds_the_default_columns(b, project_id, ids, now, (k - 1) as nat);
        let s = seeding(b, project_id, ids, now, (k - 1) as nat);
        let row = default_status(project_id, ids, now, k - 1);
        assert(added(k) =~= added((k - 1) as nat).push(row));
        assert(s.board.statuses.push(row) =~= b.statuses + added(k));
    }
}

/// There is a last position of the local boards.
pub(crate) proof fn lemma_last_order_exists(b: BoardModel)
    ensures
        is_last_order(b, last_order(b)),
    decreases b.projects.len(),
{
    let local = |p: ProjectRowModel| p.organization_id == (Uuid { bits: LOCAL_ORG_ID });
    if b.projects.len() == 0 {
        assert(is_last_order(b, -1));
    } else {
        let a = BoardModel { projects: b.projects.drop_last(), ..b };
        lemma_last_order_exists(a);
        let m = last_order(a);
        let row = b.projects.last();
        let n = b.projects.len() - 1;
        assert(b.projects[n] == row);
        assert forall|k: int| 0 <= k < n implies #[trigger] b.projects[k] == a.projects[k] by {}
        if !local(row) {
            assert(is_last_order(b, m)) by {
                if exists|k: int| 0 <= k < b.projects.len() && local(#[trigger] b.projects[k]) {
                    let k = choose|k: int|
                        0 <= k < b.projects.len() && local(#[trigger] b.projects[k]);
                    assert(local(a.projects[k]));
                    let j = choose|j: int|
                        0 <= j < a.projects.len() && local(#[trigger] a.projects[j])
                            && a.projects[j].sort_order == m;
                    assert(b.projects[j].sort_order == m);
                } else {
                    assert(forall|k: int|
                        0 <= k < a.projects.len() ==> !local(#[trigger] a.projects[k])) by {
                        assert forall|k: int| 0 <= k < a.projects.len() implies !local(
                            #[trigger] a.projects[k],
                        ) by {
                            assert(!local(b.projects[k]));
                        }
                    }
                }
            }
        } else if exists|k: int| 0 <= k < a.projects.len() && local(#[trigger] a.projects[k]) {
            let j = choose|j: int|
                0 <= j < a.projects.len() && local(#[trigger] a.projects[j])
                    && a.projects[j].sort_order == m;
            assert(b.projects[j] == a.projects[j]);
            if row.sort_order > m {
                assert(is_last_order(b, row.sort_order as int));
            } else {
                assert(is_last_order(b, m));
            }
        } else {
            assert forall|k: int|
                0 <= k < b.projects.len() && local(#[trigger] b.projects[k]) implies k == n by {
                if k < n {
                    assert(local(a.projects[k]));
                }
            }
            assert(is_last_order(b, row.sort_order as int));
        }
    }
}

/// A new board comes after all other local boards, has the default columns and
/// no cards, and leaves everything else as it was.
pub proof fn law_new_board_comes_last(
    b: BoardModel,
    req: CreateProjectRequest,
    id: Uuid,
    status_ids: Seq<Uuid>,
    now: Timestamp,
    i: int,
)
    requires
        project_creation(b, req, id, status_ids, now) is Ok,
        0 <= i < b.projects.len(),
        b.projects[i].organization_id == (Uuid { bits: LOCAL_ORG_ID }),
    ensures
        ({
            let c = project_creation(b, req, id, status_ids, now)->Ok_0;
            &&& c.projects == b.projects.push(new_project(b, req, id, now))
            &&& b.projects[i].sort_order < c.projects.last().sort_order
            &&& c.issues == b.issues
            &&& c.statuses == b.statuses + Seq::new(
                DEFAULT_STATUS_COUNT as nat,
                |k: int| default_status(id, status_ids, now, k),
            )
        }),
{
    let d = BoardModel { projects: b.projects.push(new_project(b, req, id, now)), ..b };
    law_seeding_adds_the_default_columns(d, id, status_ids, now, DEFAULT_STATUS_COUNT as nat);
    let local = |p: ProjectRowModel| p.organization_id == (Uuid { bits: LOCAL_ORG_ID });
    assert(local(b.projects[i]));
    lemma_last_order_exists(b);
    let j = choose|j: int|
        0 <= j < b.projects.len() && local(#[trigger] b.projects[j])
            && b.projects[j].sort_order == last_order(b);
    assert(b.projects[j].sort_order == last_order(b));
}

/// The list of a board's cards has each of them, and in order of position, then
/// of when they were created.
pub proof fn law_list_is_complete_and_ordered(b: BoardModel, project_id: Uuid)
    ensures
        ({
            let rows = ordered_issues(b, project_id);
            &&& forall|x: IssueRowModel|
                rows.contains(x) <==> b.issues.contains(x) && x.project_id == project_id
            &&& forall|i: int, j: int|
                0 <= i < j < rows.len() ==> (#[trigger] rows[i]).sort_order.key < (
                #[trigger] rows[j]).sort_order.key || (rows[i].sort_order.key
                    == rows[j].sort_order.key && !rows[j].created_at.before(rows[i].created_at))
        }),
{
    let kept = issues_on(b, project_id);
    let keys = issue_keys(kept);
    let rows = ordered_issues(b, project_id);
    let keep = |r: IssueRowModel| r.project_id == project_id;
    order::lemma_arranged(kept, keys);
    order::lemma_stable_order_exists(keys);
    assert forall|x: IssueRowModel|
        rows.contains(x) <==> b.issues.contains(x) && x.project_id == project_id by {
        lists::lemma_filter_contains(b.issues, keep, x);
        assert(rows.contains(x) <==> kept.contains(x));
    }
    assert forall|i: int, j: int| 0 <= i < j < rows.len() implies (
    #[trigger] rows[i]).sort_order.key < (#[trigger] rows[j]).sort_order.key || (
    rows[i].sort_order.key == rows[j].sort_order.key && !rows[j].created_at.before(
        rows[i].created_at,
    )) by {
        let perm = order::stable_order(keys);
        assert(order::comes_before(keys, perm[i], perm[j]));
        assert(rows[i] == kept[perm[i]] && rows[j] == kept[perm[j]]);
        crate::time::lemma_rank_orders(rows[j].created_at, rows[i].created_at);
    }
}

/// A search returns cards of the board that are what was looked for, at most as
/// many as asked for; and without an offset and a limit it returns all of them.
pub proof fn law_search_returns_what_is_sought(b: BoardModel, req: SearchIssuesRequest)
    ensures
        ({
            let out = search_answer(b, req);
            &&& forall|k: int|
                0 <= k < out.issues.len() ==> sought(req, #[trigger] out.issues[k])
                    && out.issues[k].project_id == req.project_id
            &&& req.limit matches Some(n) ==> out.issues.len() <= (if n < 0 {
                0
            } else {
                n as int
            })
            &&& req.limit is None && req.offset is None ==> out.issues == found(b, req)
        }),
{
    let all = found(b, req);
    let out = search_answer(b, req);
    let rows = ordered_issues(b, req.project_id);
    let keep = |i: IssueModel| sought(req, i);
    law_list_is_complete_and_ordered(b, req.project_id);
    assert forall|k: int| 0 <= k < out.issues.len() implies sought(req, #[trigger] out.issues[k])
        && out.issues[k].project_id == req.project_id by {
        let x = out.issues[k];
        let offset = match req.offset {
            Some(n) => crate::board::issues::at_least_zero(n),
            None => 0,
        };
        assert(x == all[offset + k]);
        assert(all.contains(x));
        lists::lemma_filter_contains(issues_of(rows), keep, x);
        let i = choose|i: int| 0 <= i < issues_of(rows).len() && issues_of(rows)[i] == x;
        assert(rows.contains(rows[i]));
        assert(x == issue_of(rows[i]));
    }
    if req.limit is None && req.offset is None {
        assert(page(all, 0, all.len() as int) =~= all);
    }
}

} // verus!
