//! Cards: reading, searching, creating, changing and removing them.
use vstd::prelude::*;

use crate::board::records::{
    CreateIssueRequest, Issue, IssueModel, IssueRow, IssueRowModel, ListIssuesResponse,
    ListIssuesResponseModel, ProjectRowModel, SearchIssuesRequest,
};
use crate::board::{done, refused, Board, BoardError, BoardModel};
use crate::ids::{given_or_drawn, Uuid};
use crate::json::{
    empty_object, json_parse, json_text, survives, value_from_str, value_model, value_text,
    JsonModel,
};
use crate::lists;
use crate::order;
use crate::text;
use crate::time::Timestamp;

verus! {

/// The operations on cards.
pub struct Issues;

// ---------------------------------------------------------------------------
// Reading
// ---------------------------------------------------------------------------
/// The document that a metadata text denotes; an empty object where it denotes
/// none.
pub open spec fn metadata_of(text: Seq<char>) -> JsonModel {
    match json_parse(text) {
        Ok(m) => m,
        Err(_) => JsonModel::Object(Seq::empty()),
    }
}

/// A card as callers see it.
pub open spec fn issue_of(row: IssueRowModel) -> IssueModel {
    IssueModel {
        id: row.id,
        project_id: row.project_id,
        issue_number: row.issue_number,
        simple_id: row.simple_id,
        status_id: row.status_id,
        title: row.title,
        description: row.description,
        priority: row.priority,
        start_date: row.start_date,
        target_date: row.target_date,
        completed_at: row.completed_at,
        sort_order: row.sort_order,
        parent_issue_id: row.parent_issue_id,
        parent_issue_sort_order: row.parent_issue_sort_order,
        extension_metadata: metadata_of(row.extension_metadata),
        creator_user_id: row.creator_user_id,
        created_at: row.created_at,
        updated_at: row.updated_at,
    }
}

impl IssueRow {
    /// The card as callers see it.
    pub fn into_api(&self) -> (r: Issue)
        ensures
            r@ == issue_of(self@),
    {
        let extension_metadata = match value_from_str(self.extension_metadata.as_str()) {
            Ok(v) => v,
            Err(_) => empty_object(),
        };
        Issue {
            id: self.id,
            project_id: self.project_id,
            issue_number: self.issue_number,
            simple_id: self.simple_id.clone(),
            status_id: self.status_id,
            title: self.title.clone(),
            description: text::copy_option(&self.description),
            priority: self.priority,
            start_date: self.start_date,
            target_date: self.target_date,
            completed_at: self.completed_at,
            sort_order: self.sort_order,
            parent_issue_id: self.parent_issue_id,
            parent_issue_sort_order: self.parent_issue_sort_order,
            extension_metadata,
            creator_user_id: self.creator_user_id,
            created_at: self.created_at,
            updated_at: self.updated_at,
        }
    }
}

/// By what cards are ordered: their position, then when they were created.
pub open spec fn issue_keys(rows: Seq<IssueRowModel>) -> Seq<(int, int)> {
    rows.map_values(|r: IssueRowModel| (r.sort_order.key as int, r.created_at.rank()))
}

/// The cards of a board, in the order of the table.
pub open spec fn issues_on(b: BoardModel, project_id: Uuid) -> Seq<IssueRowModel> {
    b.issues.filter(|r: IssueRowModel| r.project_id == project_id)
}

/// The cards of a board by position, then by when they were created.
pub open spec fn ordered_issues(b: BoardModel, project_id: Uuid) -> Seq<IssueRowModel> {
    let rows = issues_on(b, project_id);
    order::arranged(rows, issue_keys(rows))
}

/// Cards as callers see them.
pub open spec fn issues_of(rows: Seq<IssueRowModel>) -> Seq<IssueModel> {
    rows.map_values(|r: IssueRowModel| issue_of(r))
}

/// Whether a card is what a request looks for.
pub open spec fn sought(req: SearchIssuesRequest, i: IssueModel) -> bool {
    &&& req.status_id matches Some(s) ==> i.status_id == s
    &&& req.status_ids matches Some(v) ==> v@.contains(i.status_id)
    &&& req.priority matches Some(p) ==> i.priority == Some(p)
    &&& req.parent_issue_id matches Some(p) ==> i.parent_issue_id == Some(p)
    &&& req.simple_id matches Some(s) ==> i.simple_id == s@
    &&& req.search matches Some(q) ==> text::occurs(searched_text(i), text::unicode_lower(q@))
}

/// The text of a card that a search looks through: title and description in
/// lower case.
pub open spec fn searched_text(i: IssueModel) -> Seq<char> {
    text::unicode_lower(i.title) + " "@ + text::unicode_lower(
        match i.description {
            Some(d) => d,
            None => ""@,
        },
    )
}

/// All cards that a request looks for, in order.
pub open spec fn found(b: BoardModel, req: SearchIssuesRequest) -> Seq<IssueModel> {
    issues_of(ordered_issues(b, req.project_id)).filter(|i: IssueModel| sought(req, i))
}

/// Those of `all` from `offset` on, `limit` at most.
pub open spec fn page<T>(all: Seq<T>, offset: int, limit: int) -> Seq<T> {
    let start = if offset <= all.len() {
        offset
    } else {
        all.len() as int
    };
    let end = if start + limit <= all.len() {
        start + limit
    } else {
        all.len() as int
    };
    all.subrange(start, end)
}

/// An offset or limit of a request: what is negative counts as zero.
pub open spec fn at_least_zero(n: i32) -> int {
    if n < 0 {
        0
    } else {
        n as int
    }
}

/// The answer to a search.
pub open spec fn search_answer(b: BoardModel, req: SearchIssuesRequest) -> ListIssuesResponseModel {
    let all = found(b, req);
    let offset = match req.offset {
        Some(n) => at_least_zero(n),
        None => 0,
    };
    let limit = match req.limit {
        Some(n) => at_least_zero(n),
        None => all.len() as int,
    };
    ListIssuesResponseModel {
        issues: page(all, offset, limit),
        total_count: all.len() as usize,
        limit: limit as usize,
        offset: offset as usize,
    }
}

/// The page of one element more.
proof fn lemma_page_next<T>(all: Seq<T>, x: T, offset: int, limit: int)
    requires
        0 <= offset,
        0 <= limit,
    ensures
        page(all.push(x), offset, limit) == if offset <= all.len() < offset + limit {
            page(all, offset, limit).push(x)
        } else {
            page(all, offset, limit)
        },
{
    assert(page(all.push(x), offset, limit) =~= if offset <= all.len() < offset + limit {
        page(all, offset, limit).push(x)
    } else {
        page(all, offset, limit)
    });
}

fn clamp(n: i32) -> (r: usize)
    ensures
        r == at_least_zero(n),
{
    if n < 0 {
        0
    } else {
        n as usize
    }
}

/// Whether a request that holds a value holds this one.
fn admits(wanted: Option<Uuid>, actual: Uuid) -> (r: bool)
    ensures
        r == (wanted matches Some(w) ==> actual == w),
{
    match wanted {
        Some(w) => actual == w,
        None => true,
    }
}

fn lists(ids: &Vec<Uuid>, id: Uuid) -> (r: bool)
    ensures
        r == ids@.contains(id),
{
    for i in 0..ids.len()
        invariant
            forall|j: int| 0 <= j < i ==> ids@[j] != id,
    {
        if ids[i] == id {
            return true;
        }
    }
    false
}

/// Tests whether a card is what a request looks for; `needle` is the text that
/// it looks for, in lower case.
fn is_sought(req: &SearchIssuesRequest, needle: &Option<String>, i: &Issue) -> (r: bool)
    requires
        match req.search {
            Some(q) => text::opt_text(*needle) == Some(text::unicode_lower(q@)),
            None => needle is None,
        },
    ensures
        r == sought(*req, i@),
{
    if !admits(req.status_id, i.status_id) {
        return false;
    }
    if let Some(ids) = &req.status_ids {
        if !lists(ids, i.status_id) {
            return false;
        }
    }
    if let Some(priority) = req.priority {
        match i.priority {
            Some(p) => if p != priority {
                return false;
            },
            None => return false,
        }
    }
    if let Some(parent) = req.parent_issue_id {
        match i.parent_issue_id {
            Some(p) => if p != parent {
                return false;
            },
            None => return false,
        }
    }
    if let Some(simple_id) = &req.simple_id {
        if !text::same(i.simple_id.as_str(), simple_id.as_str()) {
            return false;
        }
    }
    if let Some(q) = needle {
        let title = text::to_lowercase(i.title.as_str());
        let description = match &i.description {
            Some(d) => text::to_lowercase(d.as_str()),
            None => text::to_lowercase(""),
        };
        let hay = text::join3(title.as_str(), " ", description.as_str());
        if !text::contains(hay.as_str(), q.as_str()) {
            return false;
        }
    }
    true
}

impl Issues {
    /// The cards of a board by position, then by when they were created.
    fn rows_by_project(board: &Board, project_id: Uuid) -> (r: Vec<&IssueRow>)
        ensures
            r@.map_values(|x: &IssueRow| x@) == ordered_issues(board@, project_id),
    {
        let ghost keep = |x: IssueRowModel| x.project_id == project_id;
        let ghost all = board@.issues;
        let mut rows: Vec<&IssueRow> = Vec::new();
        let mut keys: Vec<(i64, i128)> = Vec::new();
        proof {
            lists::lemma_filter_start(all, keep);
            assert(rows@.map_values(|x: &IssueRow| x@) =~= Seq::<IssueRowModel>::empty());
            assert(order::as_keys(keys@) =~= issue_keys(Seq::<IssueRowModel>::empty()));
        }
        for i in 0..board.issues.len()
            invariant
                all == board@.issues,
                keep == (|x: IssueRowModel| x.project_id == project_id),
                rows@.map_values(|x: &IssueRow| x@) == all.take(i as int).filter(keep),
                order::as_keys(keys@) == issue_keys(all.take(i as int).filter(keep)),
        {
            let row = &board.issues[i];
            proof {
                lists::lemma_filter_next(all, keep, i as int);
                assert(all[i as int] == row@);
            }
            if row.project_id == project_id {
                let ghost before = all.take(i as int).filter(keep);
                let ghost keyed = keys@;
                rows.push(row);
                keys.push((row.sort_order.key, row.created_at.order_key()));
                proof {
                    let key = (row.sort_order.key as int, row.created_at.rank());
                    assert(rows@.map_values(|x: &IssueRow| x@) =~= before.push(row@));
                    assert(order::as_keys(keys@) =~= order::as_keys(keyed).push(key));
                    assert(issue_keys(before.push(row@)) =~= issue_keys(before).push(key));
                }
            }
        }
        let ghost kept = issues_on(board@, project_id);
        proof {
            assert(all.take(all.len() as int) =~= all);
            assert(rows@.map_values(|x: &IssueRow| x@) == kept);
        }
        let perm = order::find_stable_order(&keys);
        let mut out: Vec<&IssueRow> = Vec::new();
        for k in 0..perm.len()
            invariant
                out@.len() == k,
                kept == rows@.map_values(|x: &IssueRow| x@),
                rows@.len() == keys@.len(),
                order::as_keys(keys@) == issue_keys(kept),
                order::is_stable_order(order::as_keys(keys@), order::as_positions(perm@)),
                forall|j: int|
                    0 <= j < k ==> (#[trigger] out@[j])@ == kept[order::as_positions(perm@)[j]],
        {
            assert(order::as_positions(perm@)[k as int] == perm@[k as int]);
            let row = rows[perm[k]];
            assert(row@ == kept[perm@[k as int] as int]);
            out.push(row);
        }
        assert(out@.map_values(|x: &IssueRow| x@) =~= ordered_issues(board@, project_id));
        out
    }

    /// All cards of a board, by position, then by when they were created.
    pub fn list_by_project(board: &Board, project_id: Uuid) -> (r: ListIssuesResponse)
        ensures
            r@.issues == issues_of(ordered_issues(board@, project_id)),
            r@.total_count == r@.issues.len(),
            r@.limit == r@.issues.len(),
            r@.offset == 0,
    {
        let rows = Self::rows_by_project(board, project_id);
        let ghost all = ordered_issues(board@, project_id);
        let mut issues: Vec<Issue> = Vec::new();
        for i in 0..rows.len()
            invariant
                issues@.len() == i,
                rows@.map_values(|x: &IssueRow| x@) == all,
                forall|j: int| 0 <= j < i ==> (#[trigger] issues@[j])@ == issue_of(all[j]),
        {
            assert(rows@[i as int]@ == all[i as int]);
            issues.push(rows[i].into_api());
        }
        let total_count = issues.len();
        let r = ListIssuesResponse { issues, total_count, limit: total_count, offset: 0 };
        assert(r@.issues =~= issues_of(all));
        r
    }

    /// A card.
    pub fn get(board: &Board, id: Uuid) -> (r: Option<Issue>)
        ensures
            match r {
                Some(issue) => board@.issue_at(id) matches Some(i) && issue@ == issue_of(
                    board@.issues[i],
                ),
                None => board@.issue_at(id) is None,
            },
    {
        match board.find_issue(id) {
            Some(i) => Some(board.issues[i].into_api()),
            None => None,
        }
    }

    /// Searches the cards of a board.
    pub fn search(board: &Board, req: &SearchIssuesRequest) -> (r: ListIssuesResponse)
        ensures
            r@ == search_answer(board@, *req),
    {
        let rows = Self::rows_by_project(board, req.project_id);
        let ghost all = ordered_issues(board@, req.project_id);
        let ghost keep = |i: IssueModel| sought(*req, i);
        let ghost issues = issues_of(all);
        let needle = match &req.search {
            Some(s) => Some(text::to_lowercase(s.as_str())),
            None => None,
        };
        let offset: usize = match req.offset {
            Some(n) => clamp(n),
            None => 0,
        };
        let cap: usize = match req.limit {
            Some(n) => clamp(n),
            None => rows.len(),
        };
        let mut total: usize = 0;
        let mut out: Vec<Issue> = Vec::new();
        proof {
            lists::lemma_filter_start(issues, keep);
            assert(page(Seq::<IssueModel>::empty(), offset as int, cap as int)
                =~= Seq::<IssueModel>::empty());
            assert(out@.map_values(|x: Issue| x@) =~= Seq::<IssueModel>::empty());
        }
        for i in 0..rows.len()
            invariant
                keep == (|i: IssueModel| sought(*req, i)),
                issues == issues_of(all),
                rows@.map_values(|x: &IssueRow| x@) == all,
                match req.search {
                    Some(q) => text::opt_text(needle) == Some(text::unicode_lower(q@)),
                    None => needle is None,
                },
                total <= i,
                total == issues.take(i as int).filter(keep).len(),
                out@.map_values(|x: Issue| x@) == page(
                    issues.take(i as int).filter(keep),
                    offset as int,
                    cap as int,
                ),
        {
            let issue = rows[i].into_api();
            let ghost before = issues.take(i as int).filter(keep);
            proof {
                assert(rows@[i as int]@ == all[i as int]);
                assert(issues[i as int] == issue@);
                lists::lemma_filter_next(issues, keep, i as int);
                lemma_page_next(before, issue@, offset as int, cap as int);
            }
            if is_sought(req, &needle, &issue) {
                if total >= offset && total - offset < cap {
                    let ghost given = out@.map_values(|x: Issue| x@);
                    out.push(issue);
                    assert(out@.map_values(|x: Issue| x@) =~= given.push(issue@));
                }
                total += 1;
            }
        }
        let ghost matched = found(board@, *req);
        let limit: usize = match req.limit {
            Some(_) => cap,
            None => total,
        };
        proof {
            assert(issues.take(issues.len() as int) =~= issues);
            assert(matched.len() == total);
            if req.limit is None {
                assert(page(matched, offset as int, cap as int) =~= page(
                    matched,
                    offset as int,
                    total as int,
                ));
            }
        }
        ListIssuesResponse { issues: out, total_count: total, limit, offset }
    }
}

// ---------------------------------------------------------------------------
// Creating
// ---------------------------------------------------------------------------
impl BoardModel {
    /// Whether a board has a card with a number.
    pub open spec fn number_taken(self, project_id: Uuid, number: i32) -> bool {
        exists|i: int|
            0 <= i < self.issues.len() && (#[trigger] self.issues[i]).project_id == project_id
                && self.issues[i].issue_number == number
    }

    /// Whether a card mirrors a Linear issue.
    pub open spec fn linked(self, linear_issue_id: Seq<char>) -> bool {
        exists|i: int|
            0 <= i < self.issues.len() && (#[trigger] self.issues[i]).linear_issue_id == Some(
                linear_issue_id,
            )
    }

    /// The board with a card counted on the project at `p`.
    pub open spec fn counted(self, p: int) -> BoardModel {
        BoardModel {
            projects: self.projects.update(
                p,
                ProjectRowModel {
                    issue_counter: (self.projects[p].issue_counter + 1) as i64,
                    ..self.projects[p]
                },
            ),
            ..self
        }
    }
}

/// A card number, and the names that come with it.
#[verifier::ext_equal]
pub struct NumberModel {
    /// Where the board that gave it is.
    pub position: int,
    pub number: i32,
    pub simple_id: Seq<char>,
}

/// The next card number of a board: one more than its counter, in 32 bits; its
/// name has the prefix of the organization before it.
pub open spec fn next_number(b: BoardModel, project_id: Uuid) -> Result<NumberModel, BoardError> {
    match b.project_at(project_id) {
        None => Err(BoardError::RowNotFound),
        Some(p) => if b.projects[p].issue_counter == i64::MAX {
            Err(BoardError::Overflow)
        } else {
            match b.organization_at(b.projects[p].organization_id) {
                None => Err(BoardError::RowNotFound),
                Some(o) => {
                    let number = (b.projects[p].issue_counter + 1) as i64 as i32;
                    Ok(
                        NumberModel {
                            position: p,
                            number,
                            simple_id: b.organizations[o].issue_prefix + "-"@ + text::decimal_int(
                                number as int,
                            ),
                        },
                    )
                },
            }
        },
    }
}

/// What keeps a row out of the table of cards: a card with its identifier, its
/// number or its Linear issue, or a column that is not there.
pub open spec fn row_fault(b: BoardModel, row: IssueRowModel) -> Option<BoardError> {
    if b.issue_at(row.id) is Some || b.number_taken(row.project_id, row.issue_number) || (
    row.linear_issue_id matches Some(l) && b.linked(l)) {
        Some(BoardError::UniqueViolation)
    } else if b.status_at(row.status_id) is None {
        Some(BoardError::ForeignKeyViolation)
    } else {
        None
    }
}

/// The row of a new card.
pub open spec fn new_row(
    req: CreateIssueRequest,
    id: Uuid,
    creator_user_id: Option<Uuid>,
    n: NumberModel,
    now: Timestamp,
) -> IssueRowModel {
    IssueRowModel {
        id,
        project_id: req.project_id,
        issue_number: n.number,
        simple_id: n.simple_id,
        status_id: req.status_id,
        title: req.title@,
        description: text::opt_text(req.description),
        priority: req.priority,
        start_date: req.start_date,
        target_date: req.target_date,
        completed_at: req.completed_at,
        sort_order: req.sort_order,
        parent_issue_id: req.parent_issue_id,
        parent_issue_sort_order: req.parent_issue_sort_order,
        extension_metadata: json_text(value_model(req.extension_metadata)),
        creator_user_id,
        created_at: now,
        updated_at: now,
        linear_issue_id: None,
        linear_issue_identifier: None,
        linear_url: None,
        linear_state_id: None,
        linear_sync_pending: false,
    }
}

/// The outcome of putting a numbered row into the table of cards: the number is
/// used up and the row is last, or nothing happens.
pub open spec fn insertion(b: BoardModel, n: NumberModel, row: IssueRowModel) -> Result<
    BoardModel,
    BoardError,
> {
    match row_fault(b, row) {
        Some(e) => Err(e),
        None => {
            let counted = b.counted(n.position);
            Ok(BoardModel { issues: counted.issues.push(row), ..counted })
        },
    }
}

/// The outcome of creating a card under an identifier.
pub open spec fn creation(
    b: BoardModel,
    req: CreateIssueRequest,
    id: Uuid,
    creator_user_id: Option<Uuid>,
    now: Timestamp,
) -> Result<BoardModel, BoardError> {
    match next_number(b, req.project_id) {
        Err(e) => Err(e),
        Ok(n) => insertion(b, n, new_row(req, id, creator_user_id, n, now)),
    }
}

/// A card number.
pub(crate) struct Number {
    pub position: usize,
    pub counter: i64,
    pub number: i32,
    pub simple_id: String,
}

/// Reads the next card number of a board, without using it up.
pub(crate) fn peek_number(board: &Board, project_id: Uuid) -> (r: Result<Number, BoardError>)
    ensures
        match r {
            Ok(n) => {
                &&& next_number(board@, project_id) matches Ok(m)
                &&& m.position == n.position
                &&& m.number == n.number
                &&& m.simple_id == n.simple_id@
                &&& n.position < board.projects@.len()
                &&& n.counter == board.projects@[n.position as int].issue_counter + 1
            },
            Err(e) => next_number(board@, project_id) matches Err(f) && e == f,
        },
{
    match board.find_project(project_id) {
        None => Err(BoardError::RowNotFound),
        Some(p) => {
            let row = &board.projects[p];
            assert(board@.projects[p as int] == row@);
            if row.issue_counter == i64::MAX {
                return Err(BoardError::Overflow);
            }
            match board.find_organization(row.organization_id) {
                None => Err(BoardError::RowNotFound),
                Some(o) => {
                    let counter: i64 = row.issue_counter + 1;
                    let number: i32 = #[verifier::truncate]
                    (counter as i32);
                    assert(board@.organizations[o as int] == board.organizations@[o as int]@);
                    let digits = text::decimal_of_int(number as i64);
                    let simple_id = text::join3(
                        board.organizations[o].issue_prefix.as_str(),
                        "-",
                        digits.as_str(),
                    );
                    Ok(Number { position: p, counter, number, simple_id })
                },
            }
        },
    }
}

/// Whether a board has a card with a number.
fn has_number(board: &Board, project_id: Uuid, number: i32) -> (r: bool)
    ensures
        r == board@.number_taken(project_id, number),
{
    for i in 0..board.issues.len()
        invariant
            forall|j: int|
                0 <= j < i ==> !((#[trigger] board@.issues[j]).project_id == project_id
                    && board@.issues[j].issue_number == number),
    {
        assert(board@.issues[i as int] == board.issues@[i as int]@);
        if board.issues[i].project_id == project_id && board.issues[i].issue_number == number {
            return true;
        }
    }
    false
}

/// Whether a card mirrors a Linear issue.
pub(crate) fn has_link(board: &Board, linear_issue_id: &str) -> (r: bool)
    ensures
        r == board@.linked(linear_issue_id@),
{
    for i in 0..board.issues.len()
        invariant
            forall|j: int|
                0 <= j < i ==> (#[trigger] board@.issues[j]).linear_issue_id != Some(
                    linear_issue_id@,
                ),
    {
        assert(board@.issues[i as int] == board.issues@[i as int]@);
        if text::is_some_text(&board.issues[i].linear_issue_id, linear_issue_id) {
            return true;
        }
    }
    false
}

/// Finds what keeps a row out of the table of cards.
fn find_fault(board: &Board, row: &IssueRow) -> (r: Option<BoardError>)
    ensures
        r == row_fault(board@, row@),
{
    if board.find_issue(row.id).is_some() || has_number(board, row.project_id, row.issue_number) {
        return Some(BoardError::UniqueViolation);
    }
    if let Some(l) = &row.linear_issue_id {
        if has_link(board, l.as_str()) {
            return Some(BoardError::UniqueViolation);
        }
    }
    if board.find_status(row.status_id).is_none() {
        return Some(BoardError::ForeignKeyViolation);
    }
    None
}

/// Puts a numbered row into the table of cards.
pub(crate) fn insert_row(board: &mut Board, n: Number, row: IssueRow) -> (r: Result<
    (),
    BoardError,
>)
    requires
        n.position < old(board).projects@.len(),
        n.counter == old(board).projects@[n.position as int].issue_counter + 1,
    ensures
        ({
            let m = NumberModel {
                position: n.position as int,
                number: n.number,
                simple_id: n.simple_id@,
            };
            match r {
                Ok(_) => insertion(old(board)@, m, row@) == done(final(board)@),
                Err(e) => insertion(old(board)@, m, row@) == refused(e) && *final(board) == *old(board),
            }
        }),
{
    if let Some(e) = find_fault(board, &row) {
        return Err(e);
    }
    let ghost before = board@;
    board.projects[n.position].issue_counter = n.counter;
    board.issues.push(row);
    proof {
        assert(board@.projects =~= before.counted(n.position as int).projects);
        assert(board@.issues =~= before.issues.push(row@));
        assert(board@.organizations =~= before.organizations);
    }
    Ok(())
}

impl Issues {
    /// Creates a card under an identifier.
    pub fn create_with_id(
        board: &mut Board,
        req: &CreateIssueRequest,
        id: Uuid,
        creator_user_id: Option<Uuid>,
        now: Timestamp,
    ) -> (r: Result<Issue, BoardError>)
        ensures
            match r {
                Ok(issue) => creation(old(board)@, *req, id, creator_user_id, now) == done(
                    final(board)@,
                ) && issue@ == issue_of(final(board)@.issues.last()),
                Err(e) => creation(old(board)@, *req, id, creator_user_id, now) == refused(e)
                    && final(board)@ == old(board)@,
            },
            r matches Ok(issue) ==> survives(value_model(req.extension_metadata))
                ==> issue@.extension_metadata == value_model(req.extension_metadata),
    {
        let n = match peek_number(board, req.project_id) {
            Ok(n) => n,
            Err(e) => return Err(e),
        };
        let row = IssueRow {
            id,
            project_id: req.project_id,
            issue_number: n.number,
            simple_id: n.simple_id.clone(),
            status_id: req.status_id,
            title: req.title.clone(),
            description: text::copy_option(&req.description),
            priority: req.priority,
            start_date: req.start_date,
            target_date: req.target_date,
            completed_at: req.completed_at,
            sort_order: req.sort_order,
            parent_issue_id: req.parent_issue_id,
            parent_issue_sort_order: req.parent_issue_sort_order,
            extension_metadata: value_text(&req.extension_metadata),
            creator_user_id,
            created_at: now,
            updated_at: now,
            linear_issue_id: None,
            linear_issue_identifier: None,
            linear_url: None,
            linear_state_id: None,
            linear_sync_pending: false,
        };
        let issue = row.into_api();
        match insert_row(board, n, row) {
            Ok(_) => Ok(issue),
            Err(e) => Err(e),
        }
    }

    /// Creates a card, under the identifier of the request or a random one.
    pub fn create(
        board: &mut Board,
        req: &CreateIssueRequest,
        creator_user_id: Option<Uuid>,
        now: Timestamp,
    ) -> (r: Result<Issue, BoardError>)
        ensures
            exists|id: Uuid|
                #![trigger creation(old(board)@, *req, id, creator_user_id, now)]
                given_or_drawn(req.id, id) && match r {
                    Ok(issue) => creation(old(board)@, *req, id, creator_user_id, now) == done(
                        final(board)@,
                    ) && issue@ == issue_of(final(board)@.issues.last()),
                    Err(e) => creation(old(board)@, *req, id, creator_user_id, now) == refused(e)
                        && final(board)@ == old(board)@,
                },
            r matches Ok(issue) ==> survives(value_model(req.extension_metadata))
                ==> issue@.extension_metadata == value_model(req.extension_metadata),
    {
        let id = match req.id {
            Some(id) => id,
            None => Uuid::new_v4(),
        };
        Self::create_with_id(board, req, id, creator_user_id, now)
    }
}

} // verus!
