//! Linear issues that become cards.
use vstd::prelude::*;

use crate::board::issues::{
    has_link, insert_row, insertion, next_number, peek_number, Issues, NumberModel,
};
use crate::board::records::{
    ImportCard, ImportCardModel, IssueRow, IssueRowModel, ProjectStatus, ProjectStatusModel,
    SortKey,
};
use crate::board::{Board, BoardError, BoardModel};
use crate::ids::{all_drawn, Uuid};
use crate::string_map::StringMap;
use crate::text;
use crate::time::Timestamp;

verus! {

// ---------------------------------------------------------------------------
// The column of a new card
// ---------------------------------------------------------------------------
/// Whether a column may take a card: it is visible and, where a state is wanted,
/// mapped to that state.
pub open spec fn fits(
    state_map: Map<Seq<char>, Seq<char>>,
    wanted: Option<Seq<char>>,
    s: ProjectStatusModel,
) -> bool {
    !s.hidden && (wanted matches Some(state) ==> state_map.dom().contains(s.id.key())
        && state_map[s.id.key()] == state)
}

/// Whether a column comes before another: by position, then by when it was
/// created.
pub open spec fn left_of(a: ProjectStatusModel, b: ProjectStatusModel) -> bool {
    a.sort_order < b.sort_order || (a.sort_order == b.sort_order && a.created_at.before(
        b.created_at,
    ))
}

/// Whether the column at `i` is the leftmost that fits, the first in the list
/// where several are equally far left.
pub open spec fn is_leftmost(
    statuses: Seq<ProjectStatusModel>,
    state_map: Map<Seq<char>, Seq<char>>,
    wanted: Option<Seq<char>>,
    i: int,
) -> bool {
    &&& 0 <= i < statuses.len()
    &&& fits(state_map, wanted, statuses[i])
    &&& forall|j: int|
        0 <= j < statuses.len() && fits(state_map, wanted, #[trigger] statuses[j]) ==> !left_of(
            statuses[j],
            statuses[i],
        ) && (j < i ==> left_of(statuses[i], statuses[j]))
}

/// The leftmost column that fits.
pub open spec fn leftmost(
    statuses: Seq<ProjectStatusModel>,
    state_map: Map<Seq<char>, Seq<char>>,
    wanted: Option<Seq<char>>,
) -> Option<Uuid> {
    if exists|i: int| is_leftmost(statuses, state_map, wanted, i) {
        Some(statuses[choose|i: int| is_leftmost(statuses, state_map, wanted, i)].id)
    } else {
        None
    }
}

/// The column that a Linear issue lands in: the leftmost of the visible columns
/// that are mapped to its state, or else the leftmost visible one.
pub open spec fn import_status(
    statuses: Seq<ProjectStatusModel>,
    state_map: Map<Seq<char>, Seq<char>>,
    incoming_state_id: Option<Seq<char>>,
) -> Option<Uuid> {
    match incoming_state_id {
        Some(state) => match leftmost(statuses, state_map, Some(state)) {
            Some(id) => Some(id),
            None => leftmost(statuses, state_map, None),
        },
        None => leftmost(statuses, state_map, None),
    }
}

/// There is at most one leftmost column.
pub proof fn lemma_leftmost_unique(
    statuses: Seq<ProjectStatusModel>,
    state_map: Map<Seq<char>, Seq<char>>,
    wanted: Option<Seq<char>>,
    i: int,
    j: int,
)
    requires
        is_leftmost(statuses, state_map, wanted, i),
        is_leftmost(statuses, state_map, wanted, j),
    ensures
        i == j,
{
    let a = statuses[i];
    let b = statuses[j];
    assert(fits(state_map, wanted, a) && fits(state_map, wanted, b));
}

/// Finds the leftmost column that fits.
fn find_leftmost(
    statuses: &[ProjectStatus],
    state_map: &StringMap<String>,
    wanted: Option<&str>,
) -> (r: Option<Uuid>)
    ensures
        r == leftmost(
            statuses@.map_values(|s: ProjectStatus| s@),
            state_map@,
            text::opt_str(wanted),
        ),
{
    let ghost all = statuses@.map_values(|s: ProjectStatus| s@);
    let ghost want = text::opt_str(wanted);
    let mut best: Option<usize> = None;
    for i in 0..statuses.len()
        invariant
            all == statuses@.map_values(|s: ProjectStatus| s@),
            want == text::opt_str(wanted),
            match best {
                Some(k) => is_leftmost(all.take(i as int), state_map@, want, k as int),
                None => forall|j: int|
                    0 <= j < i ==> !fits(state_map@, want, #[trigger] all[j]),
            },
    {
        let s = &statuses[i];
        let ghost seen = all.take(i as int);
        let ghost next = all.take(i + 1);
        assert(all[i as int] == s@);
        let mut ok = !s.hidden;
        if ok {
            if let Some(state) = wanted {
                let key = s.id.to_string();
                ok = match state_map.get(key.as_str()) {
                    Some(mapped) => text::same(mapped.as_str(), state),
                    None => false,
                };
            }
        }
        assert(ok == fits(state_map@, want, s@));
        if ok {
            match best {
                Some(k) => {
                    let b = &statuses[k];
                    assert(all[k as int] == b@);
                    let earlier = s.created_at.secs < b.created_at.secs || (s.created_at.secs
                        == b.created_at.secs && s.created_at.nanos < b.created_at.nanos);
                    if s.sort_order < b.sort_order || (s.sort_order == b.sort_order && earlier) {
                        best = Some(i);
                        assert(is_leftmost(next, state_map@, want, i as int)) by {
                            assert forall|j: int|
                                0 <= j < next.len() && fits(
                                    state_map@,
                                    want,
                                    #[trigger] next[j],
                                ) implies !left_of(next[j], next[i as int]) && (j < i ==> left_of(
                                next[i as int],
                                next[j],
                            )) by {
                                if j < i {
                                    assert(seen[j] == next[j]);
                                }
                            }
                        }
                    } else {
                        assert(is_leftmost(next, state_map@, want, k as int)) by {
                            assert(seen[k as int] == next[k as int]);
                            assert forall|j: int|
                                0 <= j < next.len() && fits(
                                    state_map@,
                                    want,
                                    #[trigger] next[j],
                                ) implies !left_of(next[j], next[k as int]) && (j < k ==> left_of(
                                next[k as int],
                                next[j],
                            )) by {
                                if j < i {
                                    assert(seen[j] == next[j]);
                                }
                            }
                        }
                    }
                },
                None => {
                    best = Some(i);
                    assert(is_leftmost(next, state_map@, want, i as int)) by {
                        assert forall|j: int|
                            0 <= j < next.len() && fits(
                                state_map@,
                                want,
                                #[trigger] next[j],
                            ) implies !left_of(next[j], next[i as int]) && (j < i ==> left_of(
                            next[i as int],
                            next[j],
                        )) by {
                            if j < i {
                                assert(all[j] == next[j]);
                            }
                        }
                    }
                },
            }
        } else if let Some(k) = best {
            assert(is_leftmost(next, state_map@, want, k as int)) by {
                assert(seen[k as int] == next[k as int]);
                assert forall|j: int|
                    0 <= j < next.len() && fits(
                        state_map@,
                        want,
                        #[trigger] next[j],
                    ) implies !left_of(next[j], next[k as int]) && (j < k ==> left_of(
                    next[k as int],
                    next[j],
                )) by {
                    if j < i {
                        assert(seen[j] == next[j]);
                    }
                }
            }
        }
    }
    assert(all.take(all.len() as int) =~= all);
    match best {
        Some(k) => {
            proof {
                let c = choose|i: int| is_leftmost(all, state_map@, want, i);
                lemma_leftmost_unique(all, state_map@, want, k as int, c);
            }
            Some(statuses[k].id)
        },
        None => None,
    }
}

/// Resolves the column that a Linear issue lands in. Only columns of `statuses`
/// are looked at: `state_map` may speak of columns of other boards too. `None`
/// means that there is no visible column.
pub fn resolve_import_status(
    statuses: &[ProjectStatus],
    state_map: &StringMap<String>,
    incoming_state_id: Option<&str>,
) -> (r: Option<Uuid>)
    ensures
        r == import_status(
            statuses@.map_values(|s: ProjectStatus| s@),
            state_map@,
            text::opt_str(incoming_state_id),
        ),
{
    if let Some(state) = incoming_state_id {
        if let Some(id) = find_leftmost(statuses, state_map, Some(state)) {
            return Some(id);
        }
    }
    find_leftmost(statuses, state_map, None)
}

// ---------------------------------------------------------------------------
// Inserting
// ---------------------------------------------------------------------------
/// The row of an imported card: linked, and with nothing to be written back.
pub open spec fn imported_row(
    project_id: Uuid,
    card: ImportCardModel,
    id: Uuid,
    slot: SortKey,
    n: NumberModel,
    now: Timestamp,
) -> IssueRowModel {
    IssueRowModel {
        id,
        project_id,
        issue_number: n.number,
        simple_id: n.simple_id,
        status_id: card.status_id,
        title: card.title,
        description: None,
        priority: None,
        start_date: None,
        target_date: None,
        completed_at: None,
        sort_order: slot,
        parent_issue_id: None,
        parent_issue_sort_order: None,
        extension_metadata: "{}"@,
        creator_user_id: None,
        created_at: now,
        updated_at: now,
        linear_issue_id: Some(card.linear_issue_id),
        linear_issue_identifier: Some(card.linear_issue_identifier),
        linear_url: Some(card.linear_url),
        linear_state_id: card.linear_state_id,
        linear_sync_pending: false,
    }
}

/// How far an import came: the board, how many cards were inserted, and what
/// stopped it.
#[verifier::ext_equal]
pub struct ImportProgress {
    pub board: BoardModel,
    pub inserted: int,
    pub error: Option<BoardError>,
}

/// What an import needs besides the cards: where they go, an identifier for each
/// card, positions in order, and the time.
#[verifier::ext_equal]
pub struct ImportSetting {
    pub project_id: Uuid,
    pub ids: Seq<Uuid>,
    pub slots: Seq<SortKey>,
    pub now: Timestamp,
}

/// One card more. An issue that a card mirrored before the import is passed over;
/// one that a card has come to mirror meanwhile uses up a number and inserts
/// nothing.
pub open spec fn import_step(
    start: BoardModel,
    s: ImportProgress,
    card: ImportCardModel,
    id: Uuid,
    setting: ImportSetting,
) -> ImportProgress {
    if s.error is Some || start.linked(card.linear_issue_id) {
        s
    } else {
        match next_number(s.board, setting.project_id) {
            Err(e) => ImportProgress { error: Some(e), ..s },
            Ok(n) => if s.board.linked(card.linear_issue_id) {
                ImportProgress { board: s.board.counted(n.position), ..s }
            } else {
                match insertion(
                    s.board,
                    n,
                    imported_row(
                        setting.project_id,
                        card,
                        id,
                        setting.slots[s.inserted],
                        n,
                        setting.now,
                    ),
                ) {
                    Err(e) => ImportProgress { error: Some(e), ..s },
                    Ok(b) => ImportProgress { board: b, inserted: s.inserted + 1, ..s },
                }
            },
        }
    }
}

/// An import of cards, one after the other.
pub open spec fn import_progress(
    start: BoardModel,
    cards: Seq<ImportCardModel>,
    setting: ImportSetting,
) -> ImportProgress
    decreases cards.len(),
{
    if cards.len() == 0 {
        ImportProgress { board: start, inserted: 0, error: None }
    } else {
        import_step(
            start,
            import_progress(start, cards.drop_last(), setting),
            cards.last(),
            setting.ids[cards.len() - 1],
            setting,
        )
    }
}

/// What cards hold.
pub open spec fn card_models(cards: Seq<ImportCard>) -> Seq<ImportCardModel> {
    cards.map_values(|c: ImportCard| c@)
}

/// Whether `after` and `r` are what an import of cards comes to: the board as far
/// as it came, and how many cards were inserted or what stopped it.
pub open spec fn imported(
    before: BoardModel,
    cards: Seq<ImportCardModel>,
    setting: ImportSetting,
    after: BoardModel,
    r: Result<usize, BoardError>,
) -> bool {
    let o = import_progress(before, cards, setting);
    &&& setting.ids.len() == cards.len()
    &&& after == o.board
    &&& match r {
        Ok(n) => o.error is None && n == o.inserted,
        Err(e) => o.error == Some(e),
    }
}

/// Once stopped, an import stays where it is.
proof fn lemma_stopped(
    start: BoardModel,
    cards: Seq<ImportCardModel>,
    setting: ImportSetting,
    k: int,
)
    requires
        0 <= k <= cards.len(),
        import_progress(start, cards.take(k), setting).error is Some,
    ensures
        import_progress(start, cards, setting) == import_progress(start, cards.take(k), setting),
    decreases cards.len() - k,
{
    if k == cards.len() {
        assert(cards.take(k) =~= cards);
    } else {
        assert(cards.take(k + 1).drop_last() =~= cards.take(k));
        lemma_stopped(start, cards, setting, k + 1);
    }
}

/// Which of the cards' issues are mirrored already.
fn find_linked(board: &Board, cards: &Vec<ImportCard>) -> (r: Vec<bool>)
    ensures
        r@.len() == cards@.len(),
        forall|k: int|
            0 <= k < cards@.len() ==> #[trigger] r@[k] == board@.linked(
                cards@[k].linear_issue_id@,
            ),
{
    let mut out: Vec<bool> = Vec::new();
    for i in 0..cards.len()
        invariant
            out@.len() == i,
            forall|k: int|
                0 <= k < i ==> #[trigger] out@[k] == board@.linked(cards@[k].linear_issue_id@),
    {
        out.push(has_link(board, cards[i].linear_issue_id.as_str()));
    }
    out
}

/// Whether a position is no less than those of all cards of a board.
pub open spec fn is_last_slot(b: BoardModel, project_id: Uuid, slot: SortKey) -> bool {
    &&& exists|i: int|
        0 <= i < b.issues.len() && (#[trigger] b.issues[i]).project_id == project_id
            && b.issues[i].sort_order == slot
    &&& forall|i: int|
        0 <= i < b.issues.len() && (#[trigger] b.issues[i]).project_id == project_id
            ==> b.issues[i].sort_order.key <= slot.key
}

impl Issues {
    /// The last position that a card of a board has.
    pub fn last_slot(board: &Board, project_id: Uuid) -> (r: Option<SortKey>)
        ensures
            match r {
                Some(slot) => is_last_slot(board@, project_id, slot),
                None => forall|i: int|
                    0 <= i < board@.issues.len() ==> (#[trigger] board@.issues[i]).project_id
                        != project_id,
            },
    {
        let mut last: Option<SortKey> = None;
        for i in 0..board.issues.len()
            invariant
                match last {
                    Some(slot) => {
                        &&& exists|k: int|
                            0 <= k < i && (#[trigger] board@.issues[k]).project_id == project_id
                                && board@.issues[k].sort_order == slot
                        &&& forall|k: int|
                            0 <= k < i && (#[trigger] board@.issues[k]).project_id == project_id
                                ==> board@.issues[k].sort_order.key <= slot.key
                    },
                    None => forall|k: int|
                        0 <= k < i ==> (#[trigger] board@.issues[k]).project_id != project_id,
                },
        {
            let row = &board.issues[i];
            assert(board@.issues[i as int] == row@);
            if row.project_id == project_id {
                match last {
                    Some(slot) => {
                        if row.sort_order.key > slot.key {
                            last = Some(row.sort_order);
                        }
                    },
                    None => {
                        last = Some(row.sort_order);
                    },
                }
            }
        }
        last
    }

    /// Imports cards under identifiers: the card at `k` under `ids[k]`, those that
    /// are inserted at the positions `slots`, one after the other. Returns how
    /// many were inserted. A refusal leaves what was imported before it.
    pub fn import_with_ids(
        board: &mut Board,
        project_id: Uuid,
        cards: &Vec<ImportCard>,
        ids: &Vec<Uuid>,
        slots: &Vec<SortKey>,
        now: Timestamp,
    ) -> (r: Result<usize, BoardError>)
        requires
            ids@.len() == cards@.len(),
            slots@.len() >= cards@.len(),
        ensures
            imported(
                old(board)@,
                card_models(cards@),
                ImportSetting { project_id, ids: ids@, slots: slots@, now },
                final(board)@,
                r,
            ),
    {
        let ghost start = board@;
        let ghost all = card_models(cards@);
        let ghost setting = ImportSetting { project_id, ids: ids@, slots: slots@, now };
        let known = find_linked(board, cards);
        let mut inserted: usize = 0;
        let mut k: usize = 0;
        assert(all.take(0) =~= Seq::<ImportCardModel>::empty());
        while k < cards.len()
            invariant
                k <= cards@.len(),
                inserted <= k,
                start == old(board)@,
                all == card_models(cards@),
                setting == (ImportSetting { project_id, ids: ids@, slots: slots@, now }),
                ids@.len() == cards@.len(),
                slots@.len() >= cards@.len(),
                known@.len() == cards@.len(),
                forall|j: int|
                    0 <= j < cards@.len() ==> #[trigger] known@[j] == start.linked(
                        cards@[j].linear_issue_id@,
                    ),
                import_progress(start, all.take(k as int), setting) == (ImportProgress {
                    board: board@,
                    inserted: inserted as int,
                    error: None,
                }),
            decreases cards@.len() - k,
        {
            let card = &cards[k];
            let ghost here = import_progress(start, all.take(k as int), setting);
            proof {
                assert(all[k as int] == card@);
                assert(all.take(k + 1).drop_last() =~= all.take(k as int));
                assert(all.take(k + 1).last() == card@);
                assert(setting.ids[k as int] == ids@[k as int]);
            }
            if !known[k] {
                let n = match peek_number(board, project_id) {
                    Ok(n) => n,
                    Err(e) => {
                        proof {
                            lemma_stopped(start, all, setting, k + 1);
                        }
                        return Err(e);
                    },
                };
                if has_link(board, card.linear_issue_id.as_str()) {
                    let ghost before = board@;
                    board.projects[n.position].issue_counter = n.counter;
                    assert(board@ =~= before.counted(n.position as int)) by {
                        assert(board@.projects =~= before.counted(n.position as int).projects);
                    }
                } else {
                    let row = IssueRow {
                        id: ids[k],
                        project_id,
                        issue_number: n.number,
                        simple_id: n.simple_id.clone(),
                        status_id: card.status_id,
                        title: card.title.clone(),
                        description: None,
                        priority: None,
                        start_date: None,
                        target_date: None,
                        completed_at: None,
                        sort_order: slots[inserted],
                        parent_issue_id: None,
                        parent_issue_sort_order: None,
                        extension_metadata: "{}".to_owned(),
                        creator_user_id: None,
                        created_at: now,
                        updated_at: now,
                        linear_issue_id: Some(card.linear_issue_id.clone()),
                        linear_issue_identifier: Some(card.linear_issue_identifier.clone()),
                        linear_url: Some(card.linear_url.clone()),
                        linear_state_id: text::copy_option(&card.linear_state_id),
                        linear_sync_pending: false,
                    };
                    match insert_row(board, n, row) {
                        Ok(_) => {
                            inserted += 1;
                        },
                        Err(e) => {
                            proof {
                                lemma_stopped(start, all, setting, k + 1);
                            }
                            return Err(e);
                        },
                    }
                }
            }
            k += 1;
        }
        assert(all.take(all.len() as int) =~= all);
        Ok(inserted)
    }

    /// Imports cards under random identifiers; see [`Issues::import_with_ids`].
    pub fn import_from_linear(
        board: &mut Board,
        project_id: Uuid,
        cards: &Vec<ImportCard>,
        slots: &Vec<SortKey>,
        now: Timestamp,
    ) -> (r: Result<usize, BoardError>)
        requires
            slots@.len() >= cards@.len(),
        ensures
            exists|ids: Seq<Uuid>|
                ids.len() == cards@.len() && all_drawn(ids) && #[trigger] imported(
                    old(board)@,
                    card_models(cards@),
                    ImportSetting { project_id, ids, slots: slots@, now },
                    final(board)@,
                    r,
                ),
    {
        let mut ids: Vec<Uuid> = Vec::new();
        for k in 0..cards.len()
            invariant
                ids@.len() == k,
                all_drawn(ids@),
        {
            ids.push(Uuid::new_v4());
        }
        Self::import_with_ids(board, project_id, cards, &ids, slots, now)
    }
}

} // verus!
