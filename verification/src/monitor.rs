//! The mirror: what is written to Linear when cards move, and what is brought in
//! from there.
//!
//! The board owns the column of a card. A move of a linked card is written to
//! Linear; what is written on the board in consequence never marks a card as
//! moved, so nothing bounces between the two.
use vstd::prelude::*;

use crate::board::card_laws::{
    law_every_imported_issue_has_its_card, law_imported_cards_are_bare,
    law_imported_cards_carry_their_issues,
};
use crate::board::changes::issue_change;
use crate::board::import::{
    card_models, import_progress, import_status, imported, resolve_import_status, ImportSetting,
};
use crate::board::issues::{issue_of, Issues};
use crate::board::laws::{
    law_import_only_adds, law_import_status_is_visible, law_mirror_never_marks,
    law_moved_card_awaits_push,
};
use crate::board::links::{awaits_push, cleared, pending_pushes, push_of, synced, unlinking};
use crate::board::projects::{account_key_of, BoardProjects};
use crate::board::records::{
    ImportCard, ImportCardModel, IssueRowModel, PendingLinearSync, PendingLinearSyncModel,
    ProjectStatus, ProjectStatusModel, SortKey, UpdateIssueRequest,
};
use crate::board::statuses::{ordered_statuses, ProjectStatuses};
use crate::board::{lemma_first_index, Board, BoardError, BoardModel};
use crate::config::{Config, LinearAccount, LinearAccountModel};
use crate::ids::{all_drawn, parsed_uuid, Uuid};
use crate::json::{Json, JsonModel};
use crate::linear::client::{outcome, update_succeeded, GraphQlRequest, LinearClient};
use crate::linear::error::{LinearError, LinearErrorModel};
use crate::linear::types::{ImportedIssue, ImportedIssueModel};
use crate::lists;
use crate::string_map::StringMap;
use crate::text;
use crate::time::{rfc3339, rfc3339_text, Timestamp};

verus! {

/// How often the mirror runs by itself, in seconds.
pub const POLL_INTERVAL_SECS: u64 = 60;

/// How far back an import looks, in days.
pub const IMPORT_LOOKBACK_DAYS: i64 = 90;

/// What wakes the mirror.
#[derive(Clone, Copy, Debug, PartialEq, Eq, Structural)]
pub enum Wake {
    /// The interval is over.
    Tick,
    /// A card was moved.
    Nudge,
}

/// Whether issues are imported, too: only when the interval is over, lest every
/// move of a card start an import.
pub fn runs_inbound(wake: Wake) -> (r: bool)
    ensures
        r == (wake == Wake::Tick),
{
    match wake {
        Wake::Tick => true,
        Wake::Nudge => false,
    }
}

// ---------------------------------------------------------------------------
// Outbound
// ---------------------------------------------------------------------------
/// What is to be done about a card that awaits a push.
#[derive(Debug, PartialEq, Eq)]
#[allow(inconsistent_fields)]
pub enum Action {
    /// Write the state to Linear. `status_id` is the column that it stands for.
    Push { id: Uuid, status_id: Uuid, linear_issue_id: String, state_id: String, token: String },
    /// Nothing can be written: give the mark up.
    Clear { id: Uuid, status_id: Uuid, reason: &'static str },
    /// Something is missing that may come: leave the mark.
    Leave { id: Uuid, reason: String },
}

/// What an [`Action`] is.
#[verifier::ext_equal]
pub enum ActionModel {
    Push {
        id: Uuid,
        status_id: Uuid,
        linear_issue_id: Seq<char>,
        state_id: Seq<char>,
        token: Seq<char>,
    },
    Clear { id: Uuid, status_id: Uuid, reason: Seq<char> },
    Leave { id: Uuid, reason: Seq<char> },
}

impl View for Action {
    type V = ActionModel;

    open spec fn view(&self) -> ActionModel {
        match self {
            Action::Push { id, status_id, linear_issue_id, state_id, token } => ActionModel::Push {
                id: *id,
                status_id: *status_id,
                linear_issue_id: linear_issue_id@,
                state_id: state_id@,
                token: token@,
            },
            Action::Clear { id, status_id, reason } => ActionModel::Clear {
                id: *id,
                status_id: *status_id,
                reason: reason@,
            },
            Action::Leave { id, reason } => ActionModel::Leave { id: *id, reason: reason@ },
        }
    }
}

/// What is to be done about a card, by the accounts: it is written where its board
/// is bound to an account that has a token and maps the column.
pub open spec fn decision(
    accounts: Map<Seq<char>, LinearAccountModel>,
    item: PendingLinearSyncModel,
) -> ActionModel {
    match item.linear_account_key {
        None => ActionModel::Clear {
            id: item.id,
            status_id: item.status_id,
            reason: "project has no bound Linear account"@,
        },
        Some(key) => if !accounts.dom().contains(key) {
            ActionModel::Leave {
                id: item.id,
                reason: "unknown Linear account '"@ + key + "'"@,
            }
        } else {
            match accounts[key].token {
                None => ActionModel::Leave {
                    id: item.id,
                    reason: "Linear account '"@ + key + "' has no token"@,
                },
                Some(token) => {
                    let column = item.status_id.key();
                    if !accounts[key].state_map.dom().contains(column) {
                        ActionModel::Clear {
                            id: item.id,
                            status_id: item.status_id,
                            reason: "board column is not mapped to a Linear state"@,
                        }
                    } else {
                        ActionModel::Push {
                            id: item.id,
                            status_id: item.status_id,
                            linear_issue_id: item.linear_issue_id,
                            state_id: accounts[key].state_map[column],
                            token,
                        }
                    }
                },
            }
        },
    }
}

/// Decides what is to be done about a card that awaits a push.
pub fn resolve(cfg: &Config, item: &PendingLinearSync) -> (r: Action)
    ensures
        r@ == decision(cfg@.linear.accounts, item@),
{
    let key = match &item.linear_account_key {
        Some(key) => key,
        None => {
            return Action::Clear {
                id: item.id,
                status_id: item.status_id,
                reason: "project has no bound Linear account",
            };
        },
    };
    let account = match cfg.linear.accounts.get(key.as_str()) {
        Some(account) => account,
        None => {
            return Action::Leave {
                id: item.id,
                reason: text::join3("unknown Linear account '", key.as_str(), "'"),
            };
        },
    };
    let token = match &account.token {
        Some(token) => token,
        None => {
            return Action::Leave {
                id: item.id,
                reason: text::join3("Linear account '", key.as_str(), "' has no token"),
            };
        },
    };
    let column = item.status_id.to_string();
    match account.state_map.get(column.as_str()) {
        Some(state_id) => Action::Push {
            id: item.id,
            status_id: item.status_id,
            linear_issue_id: item.linear_issue_id.clone(),
            state_id: state_id.clone(),
            token: token.clone(),
        },
        None => Action::Clear {
            id: item.id,
            status_id: item.status_id,
            reason: "board column is not mapped to a Linear state",
        },
    }
}

/// What is to be done about all cards that await a push.
pub open spec fn drain_actions(
    b: BoardModel,
    accounts: Map<Seq<char>, LinearAccountModel>,
) -> Seq<ActionModel> {
    pending_pushes(b).map_values(|p: PendingLinearSyncModel| decision(accounts, p))
}

/// Decides what is to be done about all cards that await a push.
pub fn drain_plan(board: &Board, cfg: &Config) -> (r: Vec<Action>)
    ensures
        r@.map_values(|a: Action| a@) == drain_actions(board@, cfg@.linear.accounts),
{
    let pending = Issues::list_pending_linear_sync(board);
    let ghost all = pending_pushes(board@);
    let mut out: Vec<Action> = Vec::new();
    for i in 0..pending.len()
        invariant
            out@.len() == i,
            all == pending@.map_values(|x: PendingLinearSync| x@),
            forall|j: int|
                0 <= j < i ==> (#[trigger] out@[j])@ == decision(cfg@.linear.accounts, all[j]),
    {
        assert(all[i as int] == pending@[i as int]@);
        out.push(resolve(cfg, &pending[i]));
    }
    assert(out@.map_values(|a: Action| a@) =~= drain_actions(board@, cfg@.linear.accounts));
    out
}

/// The request that an action needs, and the credentials for it.
pub fn push_request(action: &Action) -> (r: Option<(LinearClient, GraphQlRequest)>)
    ensures
        match action@ {
            ActionModel::Push { id: _, status_id: _, linear_issue_id, state_id, token } => {
                &&& r matches Some(p)
                &&& p.0@ == crate::linear::client::authorization(token)
                &&& p.1@.query == crate::linear::client::update_query()
                &&& p.1@.query
                    == "mutation($id:String!,$stateId:String!){ issueUpdate(id:$id, input:{stateId:$stateId}){ success } }"@
                &&& text::occurs(p.1@.query, "issueUpdate(id:$id, input:{stateId:$stateId})"@)
                &&& p.1@.variables == JsonModel::Object(
                    seq![
                        ("id"@, JsonModel::Str(linear_issue_id)),
                        ("stateId"@, JsonModel::Str(state_id)),
                    ],
                )
            },
            _ => r is None,
        },
{
    match action {
        Action::Push { id: _, status_id: _, linear_issue_id, state_id, token } => Some(
            (
                LinearClient::new(token.as_str()),
                LinearClient::update_issue_state_request(
                    linear_issue_id.as_str(),
                    state_id.as_str(),
                ),
            ),
        ),
        _ => None,
    }
}

/// What became of a push.
#[derive(Clone, Copy, Debug, PartialEq, Eq, Structural)]
pub enum PushReport {
    /// The state was written.
    Synced,
    /// The issue is gone from Linear, and the card was unlinked.
    Unlinked,
    /// It may work the next time.
    Transient,
    /// It would fail again in the same way, and the mark was given up.
    GivenUp,
    /// It stays until tokens or accounts are put right.
    Stuck,
}

/// The answer to a push, as far as the board is concerned. A push that Linear turns
/// down, and one whose answer makes no sense, would fail again in the same way.
pub open spec fn push_report(answer: Result<JsonModel, LinearErrorModel>) -> PushReport {
    match answer {
        Ok(data) => if update_succeeded(data) {
            PushReport::Synced
        } else {
            PushReport::GivenUp
        },
        Err(LinearErrorModel::NotFound(_)) => PushReport::Unlinked,
        Err(LinearErrorModel::Api(_)) => PushReport::GivenUp,
        Err(LinearErrorModel::Malformed(_)) => PushReport::GivenUp,
        Err(e) => if e.transient() {
            PushReport::Transient
        } else {
            PushReport::Stuck
        },
    }
}

/// The board after a push was answered. A success clears the mark and notes the
/// state, a failure that would come again clears it without a state, and an issue
/// that is gone unlinks the card; any other failure leaves the card marked.
pub open spec fn settled(
    b: BoardModel,
    id: Uuid,
    status_id: Uuid,
    state_id: Seq<char>,
    answer: Result<JsonModel, LinearErrorModel>,
) -> BoardModel {
    match push_report(answer) {
        PushReport::Synced => synced(b, id, status_id, state_id),
        PushReport::Unlinked => unlinking(b, id),
        PushReport::GivenUp => cleared(b, id, status_id),
        _ => b,
    }
}

/// Takes the answer to a push.
pub fn push_one(
    board: &mut Board,
    id: Uuid,
    status_id: Uuid,
    linear_issue_id: &str,
    state_id: &str,
    answer: Result<Json, LinearError>,
) -> (r: PushReport)
    ensures
        final(board)@ == settled(old(board)@, id, status_id, state_id@, outcome(answer)),
        r == push_report(outcome(answer)),
{
    match LinearClient::update_issue_state(linear_issue_id, answer) {
        Ok(_) => {
            Issues::mark_linear_synced(board, id, status_id, state_id);
            PushReport::Synced
        },
        Err(LinearError::NotFound(_)) => {
            Issues::unlink_linear(board, id);
            PushReport::Unlinked
        },
        Err(LinearError::Api(_)) => {
            Issues::clear_linear_pending(board, id, status_id);
            PushReport::GivenUp
        },
        Err(LinearError::Malformed(_)) => {
            Issues::clear_linear_pending(board, id, status_id);
            PushReport::GivenUp
        },
        Err(e) => if e.should_retry() {
            PushReport::Transient
        } else {
            PushReport::Stuck
        },
    }
}

/// The board after an action was carried out; `answer` is that to the push, where
/// there was one.
pub open spec fn acted(
    b: BoardModel,
    action: ActionModel,
    answer: Result<JsonModel, LinearErrorModel>,
) -> BoardModel {
    match action {
        ActionModel::Push { id, status_id, linear_issue_id: _, state_id, token: _ } => settled(
            b,
            id,
            status_id,
            state_id,
            answer,
        ),
        ActionModel::Clear { id, status_id, reason: _ } => cleared(b, id, status_id),
        ActionModel::Leave { id: _, reason: _ } => b,
    }
}

/// The board after several actions were carried out, one after the other.
pub open spec fn drained(
    b: BoardModel,
    actions: Seq<ActionModel>,
    answers: Seq<Result<JsonModel, LinearErrorModel>>,
) -> BoardModel
    decreases actions.len(),
{
    if actions.len() == 0 {
        b
    } else {
        acted(
            drained(b, actions.drop_last(), answers),
            actions.last(),
            answers[actions.len() - 1],
        )
    }
}

/// Carries an action out; `answer` is that to the push, and is not looked at
/// where the action is none. Returns what became of a push.
pub fn carry_out(
    board: &mut Board,
    action: &Action,
    answer: Result<Json, LinearError>,
) -> (r: Option<PushReport>)
    ensures
        final(board)@ == acted(old(board)@, action@, outcome(answer)),
        match action@ {
            ActionModel::Push { .. } => r == Some(push_report(outcome(answer))),
            _ => r is None,
        },
{
    match action {
        Action::Push { id, status_id, linear_issue_id, state_id, token: _ } => Some(
            push_one(
                board,
                *id,
                *status_id,
                linear_issue_id.as_str(),
                state_id.as_str(),
                answer,
            ),
        ),
        Action::Clear { id, status_id, reason: _ } => {
            Issues::clear_linear_pending(board, *id, *status_id);
            None
        },
        Action::Leave { id: _, reason: _ } => None,
    }
}

/// The answers to pushes, by what they are.
pub open spec fn outcomes(
    answers: Seq<Result<Json, LinearError>>,
) -> Seq<Result<JsonModel, LinearErrorModel>> {
    answers.map_values(|a: Result<Json, LinearError>| outcome(a))
}

/// Carries out what is to be done about all cards that await a push, given the
/// answer for each of them; the answer is not looked at where nothing is pushed.
pub fn drain_pending(
    board: &mut Board,
    cfg: &Config,
    answers: Vec<Result<Json, LinearError>>,
) -> (r: usize)
    requires
        answers@.len() == pending_pushes(old(board)@).len(),
    ensures
        final(board)@ == drained(
            old(board)@,
            drain_actions(old(board)@, cfg@.linear.accounts),
            outcomes(answers@),
        ),
        r == pending_pushes(old(board)@).len(),
{
    let plan = drain_plan(board, cfg);
    let ghost start = board@;
    let ghost actions = plan@.map_values(|a: Action| a@);
    let ghost all = outcomes(answers@);
    let n = plan.len();
    assert(actions.len() == pending_pushes(start).len());
    assert(actions.take(0) =~= Seq::<ActionModel>::empty());
    let mut k: usize = 0;
    for answer in it: answers
        invariant
            n == plan@.len(),
            n == it.seq().len(),
            k == it.index(),
            start == old(board)@,
            actions == plan@.map_values(|a: Action| a@),
            all == outcomes(it.seq()),
            board@ == drained(start, actions.take(k as int), all),
    {
        proof {
            assert(actions.take(k + 1).drop_last() =~= actions.take(k as int));
            assert(actions.take(k + 1).last() == plan@[k as int]@);
            assert(all[k as int] == outcome(answer));
        }
        carry_out(board, &plan[k], answer);
        k += 1;
    }
    assert(actions.take(n as int) =~= actions);
    n
}

// ---------------------------------------------------------------------------
// Inbound
// ---------------------------------------------------------------------------
/// An import that an account is configured for.
#[derive(Debug)]
pub struct ImportPlan {
    pub account_key: String,
    pub token: String,
    pub team_id: String,
    pub target_project_id: Uuid,
    pub label: Option<String>,
    /// From columns to states, to be read backwards.
    pub state_map: StringMap<String>,
}

impl Clone for ImportPlan {
    fn clone(&self) -> (r: ImportPlan)
        ensures
            r@ == self@,
    {
        ImportPlan {
            account_key: self.account_key.clone(),
            token: self.token.clone(),
            team_id: self.team_id.clone(),
            target_project_id: self.target_project_id,
            label: text::copy_option(&self.label),
            state_map: self.state_map.duplicate(),
        }
    }
}

/// What a [`ImportPlan`] holds.
#[verifier::ext_equal]
pub struct ImportPlanModel {
    pub account_key: Seq<char>,
    pub token: Seq<char>,
    pub team_id: Seq<char>,
    pub target_project_id: Uuid,
    pub label: Option<Seq<char>>,
    pub state_map: Map<Seq<char>, Seq<char>>,
}

impl View for ImportPlan {
    type V = ImportPlanModel;

    open spec fn view(&self) -> ImportPlanModel {
        ImportPlanModel {
            account_key: self.account_key@,
            token: self.token@,
            team_id: self.team_id@,
            target_project_id: self.target_project_id,
            label: text::opt_text(self.label),
            state_map: self.state_map@,
        }
    }
}

/// The import that an account is configured for. It takes a token, a team and a
/// board to import to.
pub open spec fn import_plan(key: Seq<char>, a: LinearAccountModel) -> Option<ImportPlanModel> {
    match (a.token, a.team_id, a.import_target_project_id) {
        (Some(token), Some(team_id), Some(target)) => match parsed_uuid(target) {
            Some(bits) => Some(
                ImportPlanModel {
                    account_key: key,
                    token,
                    team_id,
                    target_project_id: Uuid { bits },
                    label: a.import_label,
                    state_map: a.state_map,
                },
            ),
            None => None,
        },
        _ => None,
    }
}

/// Decides whether an account is configured for an import.
pub fn plan_import(key: &str, account: &LinearAccount) -> (r: Option<ImportPlan>)
    ensures
        match r {
            Some(p) => import_plan(key@, account@) == Some(p@),
            None => import_plan(key@, account@) is None,
        },
{
    let token = match &account.token {
        Some(t) => t.clone(),
        None => return None,
    };
    let team_id = match &account.team_id {
        Some(t) => t.clone(),
        None => return None,
    };
    let target = match &account.import_target_project_id {
        Some(t) => t,
        None => return None,
    };
    let target_project_id = match Uuid::parse_str(target.as_str()) {
        Some(id) => id,
        None => return None,
    };
    Some(
        ImportPlan {
            account_key: key.to_owned(),
            token,
            team_id,
            target_project_id,
            label: text::copy_option(&account.import_label),
            state_map: account.state_map.duplicate(),
        },
    )
}

/// Whether an account is configured for an import.
pub open spec fn imports(accounts: Map<Seq<char>, LinearAccountModel>, key: Seq<char>) -> bool {
    import_plan(key, accounts[key]) is Some
}

/// The imports that the accounts are configured for, in the order of their keys.
pub open spec fn import_plans(
    keys: Seq<Seq<char>>,
    accounts: Map<Seq<char>, LinearAccountModel>,
) -> Seq<ImportPlanModel> {
    keys.filter(|k: Seq<char>| imports(accounts, k)).map_values(
        |k: Seq<char>| import_plan(k, accounts[k])->0,
    )
}

/// Collects the imports that the accounts are configured for.
pub fn plan_imports(cfg: &Config) -> (r: Vec<ImportPlan>)
    ensures
        r@.map_values(|p: ImportPlan| p@) == import_plans(
            cfg.linear.accounts.keys_in_order(),
            cfg@.linear.accounts,
        ),
{
    let ghost keys = cfg.linear.accounts.keys_in_order();
    let ghost accounts = cfg.linear.accounts@;
    let ghost keep = |k: Seq<char>| imports(accounts, k);
    let ghost plan = |k: Seq<char>| import_plan(k, accounts[k])->0;
    let mut out: Vec<ImportPlan> = Vec::new();
    let n = cfg.linear.accounts.len();
    proof {
        lists::lemma_filter_start(keys, keep);
        assert(out@.map_values(|p: ImportPlan| p@) =~= keys.take(0).filter(keep).map_values(plan));
    }
    for i in 0..n
        invariant
            n == keys.len(),
            keys == cfg.linear.accounts.keys_in_order(),
            accounts == cfg.linear.accounts@,
            keep == (|k: Seq<char>| imports(accounts, k)),
            plan == (|k: Seq<char>| import_plan(k, accounts[k])->0),
            out@.map_values(|p: ImportPlan| p@) == keys.take(i as int).filter(keep).map_values(
                plan,
            ),
    {
        let (key, account) = cfg.linear.accounts.entry(i);
        let ghost before = keys.take(i as int).filter(keep);
        proof {
            lists::lemma_filter_next(keys, keep, i as int);
        }
        if let Some(p) = plan_import(key, account) {
            let ghost given = out@.map_values(|p: ImportPlan| p@);
            out.push(p);
            proof {
                assert(out@.map_values(|p: ImportPlan| p@) =~= given.push(p@));
                assert(before.push(key@).map_values(plan) =~= before.map_values(plan).push(p@));
            }
        }
    }
    assert(keys.take(n as int) =~= keys);
    out
}

/// The point in time that an import looks back to, in RFC 3339. `None` where it
/// cannot be written.
pub open spec fn import_window(now: Timestamp) -> Option<Seq<char>> {
    let secs = now.secs - IMPORT_LOOKBACK_DAYS * 86400;
    if secs < i64::MIN {
        None
    } else {
        rfc3339_text(secs as i64, now.nanos)
    }
}

/// Renders the point in time that an import looks back to.
pub fn updated_after(now: Timestamp) -> (r: Option<String>)
    ensures
        text::opt_text(r) == import_window(now),
{
    let span: i64 = IMPORT_LOOKBACK_DAYS * 86400;
    if now.secs < i64::MIN + span {
        return None;
    }
    rfc3339(now.secs - span, now.nanos)
}

/// Whether an import may go ahead.
#[derive(Debug, PartialEq, Eq)]
pub enum ImportGate {
    /// The board is not bound to the account (any more).
    Unbound,
    /// The board has no column to put cards in.
    NoVisibleColumn,
    /// It may; these are the columns.
    Open(Vec<ProjectStatus>),
}

/// Whether a board has a column to put cards in.
pub open spec fn has_visible(statuses: Seq<ProjectStatusModel>) -> bool {
    exists|i: int| 0 <= i < statuses.len() && !(#[trigger] statuses[i]).hidden
}

/// Decides whether an import may go ahead: the board must be bound to the account,
/// lest moves of the cards be written with the token of another, and must have a
/// visible column.
pub fn import_gate(board: &Board, plan: &ImportPlan) -> (r: ImportGate)
    ensures
        ({
            let bound = account_key_of(board@, plan.target_project_id) == Some(plan@.account_key);
            let statuses = ordered_statuses(board@, plan.target_project_id);
            match r {
                ImportGate::Unbound => !bound,
                ImportGate::NoVisibleColumn => bound && !has_visible(statuses),
                ImportGate::Open(v) => bound && has_visible(statuses) && v@.map_values(
                    |s: ProjectStatus| s@,
                ) == statuses,
            }
        }),
{
    let bound = BoardProjects::linear_account_key(board, plan.target_project_id);
    if !text::is_some_text(&bound, plan.account_key.as_str()) {
        return ImportGate::Unbound;
    }
    let statuses = ProjectStatuses::list_by_project(board, plan.target_project_id);
    let ghost all = ordered_statuses(board@, plan.target_project_id);
    let mut visible = false;
    for i in 0..statuses.len()
        invariant
            all == statuses@.map_values(|s: ProjectStatus| s@),
            visible == exists|j: int| 0 <= j < i && !(#[trigger] all[j]).hidden,
    {
        assert(all[i as int] == statuses@[i as int]@);
        if !statuses[i].hidden {
            visible = true;
        }
    }
    if visible {
        ImportGate::Open(statuses)
    } else {
        ImportGate::NoVisibleColumn
    }
}

/// The card that an issue becomes in a column.
pub open spec fn card_in(issue: ImportedIssueModel, status_id: Uuid) -> ImportCardModel {
    ImportCardModel {
        linear_issue_id: issue.id,
        linear_issue_identifier: issue.identifier,
        linear_url: issue.url,
        title: issue.title,
        linear_state_id: issue.state_id,
        status_id,
    }
}

/// The cards that issues become; an issue that no column takes becomes none.
pub open spec fn import_cards(
    statuses: Seq<ProjectStatusModel>,
    state_map: Map<Seq<char>, Seq<char>>,
    issues: Seq<ImportedIssueModel>,
) -> Seq<ImportCardModel> {
    issues.filter(
        |x: ImportedIssueModel| import_status(statuses, state_map, x.state_id) is Some,
    ).map_values(
        |x: ImportedIssueModel| card_in(x, import_status(statuses, state_map, x.state_id)->0),
    )
}

/// Makes cards of issues.
pub fn make_cards(
    statuses: &Vec<ProjectStatus>,
    state_map: &StringMap<String>,
    issues: &Vec<ImportedIssue>,
) -> (r: Vec<ImportCard>)
    ensures
        r@.len() <= issues@.len(),
        card_models(r@) == import_cards(
            statuses@.map_values(|s: ProjectStatus| s@),
            state_map@,
            issues@.map_values(|x: ImportedIssue| x@),
        ),
{
    let ghost columns = statuses@.map_values(|s: ProjectStatus| s@);
    let ghost all = issues@.map_values(|x: ImportedIssue| x@);
    let ghost keep = |x: ImportedIssueModel|
        import_status(columns, state_map@, x.state_id) is Some;
    let ghost make = |x: ImportedIssueModel|
        card_in(x, import_status(columns, state_map@, x.state_id)->0);
    let mut out: Vec<ImportCard> = Vec::new();
    proof {
        lists::lemma_filter_start(all, keep);
        assert(card_models(out@) =~= all.take(0).filter(keep).map_values(make));
    }
    for i in 0..issues.len()
        invariant
            out@.len() <= i,
            columns == statuses@.map_values(|s: ProjectStatus| s@),
            all == issues@.map_values(|x: ImportedIssue| x@),
            keep == (|x: ImportedIssueModel|
                import_status(columns, state_map@, x.state_id) is Some),
            make == (|x: ImportedIssueModel|
                card_in(x, import_status(columns, state_map@, x.state_id)->0)),
            card_models(out@) == all.take(i as int).filter(keep).map_values(make),
    {
        let issue = &issues[i];
        let ghost before = all.take(i as int).filter(keep);
        proof {
            lists::lemma_filter_next(all, keep, i as int);
            assert(all[i as int] == issue@);
        }
        let state = match &issue.state_id {
            Some(s) => Some(s.as_str()),
            None => None,
        };
        if let Some(status_id) = resolve_import_status(statuses.as_slice(), state_map, state) {
            let ghost given = card_models(out@);
            out.push(
                ImportCard {
                    linear_issue_id: issue.id.clone(),
                    linear_issue_identifier: issue.identifier.clone(),
                    linear_url: issue.url.clone(),
                    title: issue.title.clone(),
                    linear_state_id: text::copy_option(&issue.state_id),
                    status_id,
                },
            );
            proof {
                assert(card_models(out@) =~= given.push(make(issue@)));
                assert(before.push(issue@).map_values(make) =~= before.map_values(make).push(
                    make(issue@),
                ));
            }
        }
    }
    assert(all.take(all.len() as int) =~= all);
    out
}

/// Why an import came to nothing.
#[derive(Debug, PartialEq, Eq)]
pub enum ImportError {
    Linear(LinearError),
    Board(BoardError),
}

/// Whether `after` and `r` are what an import for an account comes to, under some
/// identifiers that are drawn at random.
pub open spec fn account_import(
    before: BoardModel,
    plan: ImportPlanModel,
    statuses: Seq<ProjectStatusModel>,
    issues: Seq<ImportedIssueModel>,
    slots: Seq<SortKey>,
    now: Timestamp,
    after: BoardModel,
    r: Result<usize, BoardError>,
) -> bool {
    exists|ids: Seq<Uuid>|
        ids.len() == import_cards(statuses, plan.state_map, issues).len() && all_drawn(ids)
            && #[trigger] imported(
            before,
            import_cards(statuses, plan.state_map, issues),
            ImportSetting { project_id: plan.target_project_id, ids, slots, now },
            after,
            r,
        )
}

/// Imports the issues that were fetched for an account, given the columns that the
/// gate let through: `slots` are positions for as many cards as there are issues.
/// Returns how many cards came of it.
pub fn import_for_account(
    board: &mut Board,
    plan: &ImportPlan,
    statuses: &Vec<ProjectStatus>,
    fetched: Result<Vec<ImportedIssue>, LinearError>,
    slots: &Vec<SortKey>,
    now: Timestamp,
) -> (r: Result<usize, ImportError>)
    requires
        fetched matches Ok(issues) ==> slots@.len() >= issues@.len(),
    ensures
        match fetched {
            Err(e) => r matches Err(ImportError::Linear(f)) && f@ == e@ && final(board)@ == old(
                board)@,
            Ok(issues) => match r {
                Ok(n) => account_import(
                    old(board)@,
                    plan@,
                    statuses@.map_values(|s: ProjectStatus| s@),
                    issues@.map_values(|x: ImportedIssue| x@),
                    slots@,
                    now,
                    final(board)@,
                    Ok(n),
                ),
                Err(ImportError::Board(e)) => account_import(
                    old(board)@,
                    plan@,
                    statuses@.map_values(|s: ProjectStatus| s@),
                    issues@.map_values(|x: ImportedIssue| x@),
                    slots@,
                    now,
                    final(board)@,
                    Err(e),
                ),
                Err(ImportError::Linear(_)) => false,
            },
        },
{
    let issues = match fetched {
        Ok(issues) => issues,
        Err(e) => return Err(ImportError::Linear(e)),
    };
    let cards = make_cards(statuses, &plan.state_map, &issues);
    let ghost columns = statuses@.map_values(|s: ProjectStatus| s@);
    let ghost given = issues@.map_values(|x: ImportedIssue| x@);
    let ghost before = board@;
    let done = Issues::import_from_linear(board, plan.target_project_id, &cards, slots, now);
    proof {
        let ids = choose|ids: Seq<Uuid>|
            ids.len() == cards@.len() && all_drawn(ids) && #[trigger] imported(
                before,
                card_models(cards@),
                ImportSetting { project_id: plan.target_project_id, ids, slots: slots@, now },
                board@,
                done,
            );
        assert(imported(
            before,
            card_models(cards@),
            ImportSetting { project_id: plan.target_project_id, ids, slots: slots@, now },
            board@,
            done,
        ));
        assert(card_models(cards@) == import_cards(columns, plan@.state_map, given));
        assert(imported(
            before,
            import_cards(columns, plan@.state_map, given),
            ImportSetting { project_id: plan@.target_project_id, ids, slots: slots@, now },
            board@,
            done,
        ));
    }
    assert(account_import(before, plan@, columns, given, slots@, now, board@, done));
    match done {
        Ok(n) => Ok(n),
        Err(e) => Err(ImportError::Board(e)),
    }
}

// ---------------------------------------------------------------------------
// Laws
// ---------------------------------------------------------------------------
/// Carrying out an action never marks a card.
pub proof fn law_actions_never_mark(
    b: BoardModel,
    action: ActionModel,
    answer: Result<JsonModel, LinearErrorModel>,
    j: int,
)
    requires
        0 <= j < b.issues.len(),
    ensures
        acted(b, action, answer).issues.len() == b.issues.len(),
        acted(b, action, answer).issues[j].linear_sync_pending
            ==> b.issues[j].linear_sync_pending,
        acted(b, action, answer).issues[j].status_id == b.issues[j].status_id,
{
    match action {
        ActionModel::Push { id, status_id, linear_issue_id: _, state_id, token: _ } => {
            law_mirror_never_marks(b, id, status_id, state_id, j);
            lemma_first_index(b.issue_ids(), id);
        },
        ActionModel::Clear { id, status_id, reason: _ } => {
            law_mirror_never_marks(b, id, status_id, Seq::empty(), j);
            lemma_first_index(b.issue_ids(), id);
        },
        _ => {},
    }
}

/// A drain never marks a card and moves none: what it does cannot make the mirror
/// run again.
pub proof fn law_drain_never_marks(
    b: BoardModel,
    actions: Seq<ActionModel>,
    answers: Seq<Result<JsonModel, LinearErrorModel>>,
    j: int,
)
    requires
        0 <= j < b.issues.len(),
    ensures
        drained(b, actions, answers).issues.len() == b.issues.len(),
        drained(b, actions, answers).issues[j].linear_sync_pending
            ==> b.issues[j].linear_sync_pending,
        drained(b, actions, answers).issues[j].status_id == b.issues[j].status_id,
    decreases actions.len(),
{
    if actions.len() > 0 {
        let front = actions.drop_last();
        law_drain_never_marks(b, front, answers, j);
        law_actions_never_mark(
            drained(b, front, answers),
            actions.last(),
            answers[actions.len() - 1],
            j,
        );
    }
}

/// A push that may work the next time, or once tokens or accounts are put right,
/// changes nothing: the card keeps its mark.
pub proof fn law_recoverable_push_is_not_forgotten(
    b: BoardModel,
    id: Uuid,
    status_id: Uuid,
    state_id: Seq<char>,
    e: LinearErrorModel,
)
    requires
        e.transient() || e is AuthFailed || e is UnknownAccount,
    ensures
        settled(b, id, status_id, state_id, Err(e)) == b,
{
}

/// A push that would fail again in the same way is not tried for ever: the card
/// loses its mark and nothing else, unless it was moved meanwhile; then it keeps the
/// mark, for the new column.
pub proof fn law_hopeless_push_is_given_up(
    b: BoardModel,
    id: Uuid,
    status_id: Uuid,
    state_id: Seq<char>,
    answer: Result<JsonModel, LinearErrorModel>,
    i: int,
)
    requires
        b.issue_at(id) == Some(i),
        match answer {
            Ok(data) => !update_succeeded(data),
            Err(e) => e is Api || e is Malformed,
        },
    ensures
        ({
            let row = settled(b, id, status_id, state_id, answer).issues[i];
            if b.issues[i].status_id == status_id {
                row == (IssueRowModel { linear_sync_pending: false, ..b.issues[i] })
            } else {
                row == b.issues[i]
            }
        }),
{
    lemma_first_index(b.issue_ids(), id);
}

/// The move of a linked card reaches Linear: where its board is bound to an account
/// that has a token and maps the new column, the next drain pushes the mapped state
/// to the card's issue with the token of that account; and once the push succeeded,
/// the card is no longer marked, and the state is on record.
pub proof fn law_move_reaches_linear(
    b: BoardModel,
    accounts: Map<Seq<char>, LinearAccountModel>,
    id: Uuid,
    req: UpdateIssueRequest,
    now: Timestamp,
    i: int,
    p: int,
    data: JsonModel,
)
    requires
        issue_change(b, id, req, now) is Ok,
        b.issue_at(id) == Some(i),
        b.issues[i].linear_issue_id is Some,
        req.status_id matches Some(s) && s != b.issues[i].status_id,
        b.project_at(b.issues[i].project_id) == Some(p),
        b.projects[p].linear_account_key matches Some(key) && accounts.dom().contains(key)
            && accounts[key].token is Some && accounts[key].state_map.dom().contains(
            (req.status_id->0).key(),
        ),
        update_succeeded(data),
    ensures
        ({
            let c = issue_change(b, id, req, now)->Ok_0;
            let account = accounts[b.projects[p].linear_account_key->0];
            let state_id = account.state_map[(req.status_id->0).key()];
            let push = ActionModel::Push {
                id,
                status_id: req.status_id->0,
                linear_issue_id: b.issues[i].linear_issue_id->0,
                state_id,
                token: account.token->0,
            };
            let row = acted(c, push, Ok(data)).issues[i];
            &&& drain_actions(c, accounts).contains(push)
            &&& !row.linear_sync_pending
            &&& row.linear_state_id == Some(state_id)
            &&& row.status_id == req.status_id->0
        }),
{
    let c = issue_change(b, id, req, now)->Ok_0;
    lemma_first_index(b.issue_ids(), id);
    assert(b.issue_ids()[i] == b.issues[i].id);
    law_moved_card_awaits_push(b, id, req, now, i);
    assert(c.project_ids() == b.project_ids());
    assert(c.issue_ids() =~= b.issue_ids());
    let item = push_of(c, c.issues[i]);
    let all = pending_pushes(c);
    let k = choose|k: int| 0 <= k < all.len() && all[k] == item;
    assert(drain_actions(c, accounts)[k] == decision(accounts, item));
}

/// The card that an action is about.
pub open spec fn card_of(action: ActionModel) -> Uuid {
    match action {
        ActionModel::Push { id, .. } => id,
        ActionModel::Clear { id, .. } => id,
        ActionModel::Leave { id, .. } => id,
    }
}

/// An action touches no card but its own, and depends on no other.
proof fn lemma_action_is_local(
    b: BoardModel,
    d: BoardModel,
    action: ActionModel,
    answer: Result<JsonModel, LinearErrorModel>,
    i: int,
)
    requires
        0 <= i < b.issues.len(),
        d.issue_ids() == b.issue_ids(),
        d.issues[i] == b.issues[i],
    ensures
        acted(b, action, answer).issue_ids() == b.issue_ids(),
        b.issues[i].id != card_of(action) ==> acted(b, action, answer).issues[i] == b.issues[i],
        b.issue_at(card_of(action)) == Some(i) ==> acted(b, action, answer).issues[i] == acted(
            d,
            action,
            answer,
        ).issues[i],
{
    lemma_first_index(b.issue_ids(), card_of(action));
    assert(b.issue_ids()[i] == b.issues[i].id);
    assert(d.issues.len() == d.issue_ids().len());
    assert(acted(b, action, answer).issue_ids() =~= b.issue_ids());
}

/// Actions about other cards leave a card as it is.
proof fn lemma_others_leave_a_card(
    b: BoardModel,
    actions: Seq<ActionModel>,
    answers: Seq<Result<JsonModel, LinearErrorModel>>,
    i: int,
)
    requires
        0 <= i < b.issues.len(),
        forall|m: int|
            0 <= m < actions.len() ==> card_of(#[trigger] actions[m]) != b.issues[i].id,
    ensures
        drained(b, actions, answers).issue_ids() == b.issue_ids(),
        drained(b, actions, answers).issues[i] == b.issues[i],
    decreases actions.len(),
{
    if actions.len() > 0 {
        let front = actions.drop_last();
        assert forall|m: int| 0 <= m < front.len() implies card_of(#[trigger] front[m])
            != b.issues[i].id by {
            assert(front[m] == actions[m]);
        }
        lemma_others_leave_a_card(b, front, answers, i);
        let d = drained(b, front, answers);
        assert(d.issues.len() == d.issue_ids().len());
        assert(card_of(actions[actions.len() - 1]) != b.issues[i].id);
        lemma_action_is_local(d, d, actions.last(), answers[actions.len() - 1], i);
    }
}

/// Of actions about different cards, the one about a card decides what becomes of
/// it.
proof fn lemma_own_action_decides(
    b: BoardModel,
    actions: Seq<ActionModel>,
    answers: Seq<Result<JsonModel, LinearErrorModel>>,
    k: int,
    i: int,
)
    requires
        0 <= k < actions.len(),
        b.issue_at(card_of(actions[k])) == Some(i),
        forall|m: int|
            0 <= m < actions.len() && m != k ==> card_of(#[trigger] actions[m]) != card_of(
                actions[k],
            ),
    ensures
        drained(b, actions, answers).issue_ids() == b.issue_ids(),
        drained(b, actions, answers).issues[i] == acted(b, actions[k], answers[k]).issues[i],
    decreases actions.len(),
{
    let front = actions.drop_last();
    let last = actions.last();
    let answer = answers[actions.len() - 1];
    let d = drained(b, front, answers);
    lemma_first_index(b.issue_ids(), card_of(actions[k]));
    assert(b.issue_ids()[i] == b.issues[i].id);
    if k == actions.len() - 1 {
        assert forall|m: int| 0 <= m < front.len() implies card_of(#[trigger] front[m])
            != b.issues[i].id by {
            assert(front[m] == actions[m]);
        }
        lemma_others_leave_a_card(b, front, answers, i);
        assert(d.issues.len() == d.issue_ids().len());
        lemma_action_is_local(d, b, last, answer, i);
    } else {
        assert forall|m: int| 0 <= m < front.len() && m != k implies card_of(
            #[trigger] front[m],
        ) != card_of(front[k]) by {
            assert(front[m] == actions[m]);
        }
        lemma_own_action_decides(b, front, answers, k, i);
        assert(d.issues.len() == d.issue_ids().len());
        assert(d.issue_ids()[i] == d.issues[i].id);
        assert(card_of(actions[actions.len() - 1]) != card_of(actions[k]));
        lemma_action_is_local(d, d, last, answer, i);
    }
}

/// Cards with identifiers of their own keep them when some are left out.
proof fn lemma_filter_keeps_ids_apart(
    rows: Seq<IssueRowModel>,
    keep: spec_fn(IssueRowModel) -> bool,
    m: int,
    n: int,
)
    requires
        forall|i: int, j: int|
            0 <= i < j < rows.len() ==> (#[trigger] rows[i]).id != (#[trigger] rows[j]).id,
        0 <= m < n < rows.filter(keep).len(),
    ensures
        rows.filter(keep)[m].id != rows.filter(keep)[n].id,
    decreases rows.len(),
{
    reveal(Seq::filter);
    let front = rows.drop_last();
    let kept = front.filter(keep);
    if n < kept.len() {
        lemma_filter_keeps_ids_apart(front, keep, m, n);
    } else {
        lists::lemma_filter_contains(front, keep, kept[m]);
        assert(kept.contains(kept[m]));
        let i = choose|i: int| 0 <= i < front.len() && front[i] == kept[m];
        assert(rows[i].id != rows[rows.len() - 1].id);
    }
}

/// In a drain every card is settled by its own answer, whatever the answers for
/// the other cards are: one push that fails does not keep the others back.
pub proof fn law_cards_are_settled_one_by_one(
    b: BoardModel,
    accounts: Map<Seq<char>, LinearAccountModel>,
    answers: Seq<Result<JsonModel, LinearErrorModel>>,
    k: int,
    i: int,
)
    requires
        b.wf(),
        0 <= k < pending_pushes(b).len(),
        b.issue_at(pending_pushes(b)[k].id) == Some(i),
    ensures
        ({
            let actions = drain_actions(b, accounts);
            drained(b, actions, answers).issues[i] == acted(b, actions[k], answers[k]).issues[i]
        }),
{
    let actions = drain_actions(b, accounts);
    let items = pending_pushes(b);
    let keep = |r: IssueRowModel| awaits_push(b, r);
    let rows = b.issues.filter(keep);
    assert forall|m: int| 0 <= m < actions.len() implies card_of(#[trigger] actions[m])
        == rows[m].id by {
        assert(actions[m] == decision(accounts, items[m]));
    }
    assert forall|m: int| 0 <= m < actions.len() && m != k implies card_of(#[trigger] actions[m])
        != card_of(actions[k]) by {
        if m < k {
            lemma_filter_keeps_ids_apart(b.issues, keep, m, k);
        } else {
            lemma_filter_keeps_ids_apart(b.issues, keep, k, m);
        }
    }
    lemma_own_action_decides(b, actions, answers, k, i);
}

/// A card is written to Linear when, and only when, its board is bound to an
/// account that has a token and maps the column; and it is written with the token
/// of that account, as the state that the column is mapped to.
pub proof fn law_push_needs_account_token_and_map(
    accounts: Map<Seq<char>, LinearAccountModel>,
    item: PendingLinearSyncModel,
)
    ensures
        decision(accounts, item) is Push <==> {
            &&& item.linear_account_key matches Some(key)
            &&& accounts.dom().contains(key)
            &&& accounts[key].token is Some
            &&& accounts[key].state_map.dom().contains(item.status_id.key())
        },
        decision(accounts, item) matches ActionModel::Push {
            id,
            status_id,
            linear_issue_id,
            state_id,
            token,
        } ==> {
            let key = item.linear_account_key->0;
            &&& id == item.id
            &&& status_id == item.status_id
            &&& linear_issue_id == item.linear_issue_id
            &&& state_id == accounts[key].state_map[item.status_id.key()]
            &&& Some(token) == accounts[key].token
        },
{
}

/// The cards that an import makes land in visible columns of the board.
pub proof fn law_cards_land_in_visible_columns(
    statuses: Seq<ProjectStatusModel>,
    state_map: Map<Seq<char>, Seq<char>>,
    issues: Seq<ImportedIssueModel>,
    k: int,
)
    requires
        0 <= k < import_cards(statuses, state_map, issues).len(),
    ensures
        exists|i: int|
            0 <= i < statuses.len() && !(#[trigger] statuses[i]).hidden && statuses[i].id
                == import_cards(statuses, state_map, issues)[k].status_id,
{
    let keep = |x: ImportedIssueModel| import_status(statuses, state_map, x.state_id) is Some;
    let kept = issues.filter(keep);
    issues.lemma_filter_pred(keep, k);
    law_import_status_is_visible(statuses, state_map, kept[k].state_id);
}

/// Where a column is visible, every issue becomes a card: the k-th card has the
/// identifier, the short name, the title, the address and the state of the k-th
/// issue, each under its own name.
pub proof fn law_no_issue_is_left_out(
    statuses: Seq<ProjectStatusModel>,
    state_map: Map<Seq<char>, Seq<char>>,
    issues: Seq<ImportedIssueModel>,
)
    requires
        exists|i: int| 0 <= i < statuses.len() && !(#[trigger] statuses[i]).hidden,
    ensures
        import_cards(statuses, state_map, issues).len() == issues.len(),
        forall|k: int|
            0 <= k < issues.len() ==> {
                let card = #[trigger] import_cards(statuses, state_map, issues)[k];
                &&& card.linear_issue_id == issues[k].id
                &&& card.linear_issue_identifier == issues[k].identifier
                &&& card.title == issues[k].title
                &&& card.linear_url == issues[k].url
                &&& card.linear_state_id == issues[k].state_id
                &&& import_status(statuses, state_map, issues[k].state_id) == Some(card.status_id)
            },
    decreases issues.len(),
{
    let keep = |x: ImportedIssueModel| import_status(statuses, state_map, x.state_id) is Some;
    let make = |x: ImportedIssueModel|
        card_in(x, import_status(statuses, state_map, x.state_id)->0);
    lemma_all_kept(issues, keep, statuses, state_map);
    assert(import_cards(statuses, state_map, issues) =~= issues.map_values(make));
    assert forall|k: int| 0 <= k < issues.len() implies {
        let card = #[trigger] import_cards(statuses, state_map, issues)[k];
        &&& card.linear_issue_id == issues[k].id
        &&& card.linear_issue_identifier == issues[k].identifier
        &&& card.title == issues[k].title
        &&& card.linear_url == issues[k].url
        &&& card.linear_state_id == issues[k].state_id
        &&& import_status(statuses, state_map, issues[k].state_id) == Some(card.status_id)
    } by {
        law_import_status_is_visible(statuses, state_map, issues[k].state_id);
    }
}

/// An import is let through to a board where one of its columns is visible.
pub proof fn law_one_visible_column_is_enough(statuses: Seq<ProjectStatusModel>)
    ensures
        has_visible(statuses) <==> exists|i: int|
            0 <= i < statuses.len() && !(#[trigger] statuses[i]).hidden,
{
}

/// Where no column is visible, no issue becomes a card.
pub proof fn law_no_card_without_a_visible_column(
    statuses: Seq<ProjectStatusModel>,
    state_map: Map<Seq<char>, Seq<char>>,
    issues: Seq<ImportedIssueModel>,
)
    requires
        forall|i: int| 0 <= i < statuses.len() ==> (#[trigger] statuses[i]).hidden,
    ensures
        import_cards(statuses, state_map, issues).len() == 0,
{
    let cards = import_cards(statuses, state_map, issues);
    if cards.len() > 0 {
        law_cards_land_in_visible_columns(statuses, state_map, issues, 0);
    }
}

/// After an import every new card of the board carries the identifier, the short
/// name, the title, the address and the state of one of the issues that were
/// fetched, each under its own name; it is on the board that the account imports
/// to, and nothing of it is to be written back.
pub proof fn law_imported_rows_carry_fetched_issues(
    before: BoardModel,
    plan: ImportPlanModel,
    statuses: Seq<ProjectStatusModel>,
    issues: Seq<ImportedIssueModel>,
    slots: Seq<SortKey>,
    now: Timestamp,
    after: BoardModel,
    r: Result<usize, BoardError>,
    j: int,
)
    requires
        exists|i: int| 0 <= i < statuses.len() && !(#[trigger] statuses[i]).hidden,
        account_import(before, plan, statuses, issues, slots, now, after, r),
        before.issues.len() <= j < after.issues.len(),
    ensures
        exists|k: int|
            0 <= k < issues.len() && {
                let issue = #[trigger] issues[k];
                &&& after.issues[j].linear_issue_id == Some(issue.id)
                &&& after.issues[j].linear_issue_identifier == Some(issue.identifier)
                &&& after.issues[j].title == issue.title
                &&& after.issues[j].linear_url == Some(issue.url)
                &&& after.issues[j].linear_state_id == issue.state_id
                &&& import_status(statuses, plan.state_map, issue.state_id) == Some(
                    after.issues[j].status_id,
                )
            },
        after.issues[j].project_id == plan.target_project_id,
        !after.issues[j].linear_sync_pending,
{
    let cards = import_cards(statuses, plan.state_map, issues);
    let ids = choose|ids: Seq<Uuid>|
        ids.len() == cards.len() && all_drawn(ids) && #[trigger] imported(
            before,
            cards,
            ImportSetting { project_id: plan.target_project_id, ids, slots, now },
            after,
            r,
        );
    let setting = ImportSetting { project_id: plan.target_project_id, ids, slots, now };
    law_imported_cards_carry_their_issues(before, cards, setting, j);
    law_imported_cards_are_bare(before, cards, setting, j);
    law_no_issue_is_left_out(statuses, plan.state_map, issues);
    let k = choose|k: int|
        0 <= k < cards.len() && {
            let card = #[trigger] cards[k];
            let row = import_progress(before, cards, setting).board.issues[j];
            &&& row.linear_issue_id == Some(card.linear_issue_id)
            &&& row.linear_issue_identifier == Some(card.linear_issue_identifier)
            &&& row.linear_url == Some(card.linear_url)
            &&& row.linear_state_id == card.linear_state_id
            &&& row.title == card.title
            &&& row.status_id == card.status_id
            &&& row.project_id == setting.project_id
            &&& row.id == setting.ids[k]
            &&& row.sort_order == setting.slots[j - before.issues.len()]
            &&& row.created_at == setting.now
            &&& row.updated_at == setting.now
            &&& !before.linked(card.linear_issue_id)
        };
    assert(cards[k].linear_issue_id == issues[k].id);
}

/// An import that was not stopped gives every fetched issue that had no card one
/// that carries its identifier, short name, title, address and state, where no two
/// of the issues share an identifier.
pub proof fn law_every_fetched_issue_has_its_row(
    before: BoardModel,
    plan: ImportPlanModel,
    statuses: Seq<ProjectStatusModel>,
    issues: Seq<ImportedIssueModel>,
    slots: Seq<SortKey>,
    now: Timestamp,
    after: BoardModel,
    n: usize,
    k: int,
)
    requires
        exists|i: int| 0 <= i < statuses.len() && !(#[trigger] statuses[i]).hidden,
        account_import(before, plan, statuses, issues, slots, now, after, Ok(n)),
        0 <= k < issues.len(),
        !before.linked(issues[k].id),
        forall|i: int, j: int|
            0 <= i < j < issues.len() ==> (#[trigger] issues[i]).id != (#[trigger] issues[j]).id,
    ensures
        exists|j: int|
            before.issues.len() <= j < after.issues.len() && {
                let row = #[trigger] after.issues[j];
                &&& row.linear_issue_id == Some(issues[k].id)
                &&& row.linear_issue_identifier == Some(issues[k].identifier)
                &&& row.title == issues[k].title
                &&& row.linear_url == Some(issues[k].url)
                &&& row.linear_state_id == issues[k].state_id
                &&& row.project_id == plan.target_project_id
            },
        after.issues.len() == before.issues.len() + n,
{
    let cards = import_cards(statuses, plan.state_map, issues);
    let ids = choose|ids: Seq<Uuid>|
        ids.len() == cards.len() && all_drawn(ids) && #[trigger] imported(
            before,
            cards,
            ImportSetting { project_id: plan.target_project_id, ids, slots, now },
            after,
            Ok(n),
        );
    let setting = ImportSetting { project_id: plan.target_project_id, ids, slots, now };
    law_no_issue_is_left_out(statuses, plan.state_map, issues);
    assert(cards[k].linear_issue_id == issues[k].id);
    assert forall|i: int, j: int| 0 <= i < j < cards.len() implies (
    #[trigger] cards[i]).linear_issue_id != (#[trigger] cards[j]).linear_issue_id by {
        assert(issues[i].id != issues[j].id);
    }
    law_every_imported_issue_has_its_card(before, cards, setting, k);
    law_import_only_adds(before, cards, setting);
    let j = choose|j: int|
        before.issues.len() <= j < import_progress(before, cards, setting).board.issues.len() && {
            let row = #[trigger] import_progress(before, cards, setting).board.issues[j];
            &&& row.linear_issue_id == Some(cards[k].linear_issue_id)
            &&& row.linear_issue_identifier == Some(cards[k].linear_issue_identifier)
            &&& row.linear_url == Some(cards[k].linear_url)
            &&& row.linear_state_id == cards[k].linear_state_id
            &&& row.title == cards[k].title
            &&& row.status_id == cards[k].status_id
            &&& row.project_id == setting.project_id
            &&& row.id == setting.ids[k]
        };
    assert(after.issues[j].linear_issue_id == Some(issues[k].id));
}

/// Nothing is lost or invented when nothing can be written: a card of a board that
/// is bound to no account, and one in a column that the account does not map, loses
/// its mark; where the account is not known or has no token, the mark stays. The
/// reason names what is missing.
pub proof fn law_what_cannot_be_pushed_is_cleared_or_left(
    accounts: Map<Seq<char>, LinearAccountModel>,
    item: PendingLinearSyncModel,
)
    ensures
        item.linear_account_key is None ==> decision(accounts, item) == (ActionModel::Clear {
            id: item.id,
            status_id: item.status_id,
            reason: "project has no bound Linear account"@,
        }),
        item.linear_account_key matches Some(key) ==> {
            &&& !accounts.dom().contains(key) ==> decision(accounts, item) == (ActionModel::Leave {
                id: item.id,
                reason: "unknown Linear account '"@ + key + "'"@,
            })
            &&& accounts.dom().contains(key) && accounts[key].token is None ==> decision(
                accounts,
                item,
            ) == (ActionModel::Leave {
                id: item.id,
                reason: "Linear account '"@ + key + "' has no token"@,
            })
            &&& accounts.dom().contains(key) && accounts[key].token is Some
                && !accounts[key].state_map.dom().contains(item.status_id.key()) ==> decision(
                accounts,
                item,
            ) == (ActionModel::Clear {
                id: item.id,
                status_id: item.status_id,
                reason: "board column is not mapped to a Linear state"@,
            })
        },
{
}

/// A drain has one action for each card that awaits a push, in the same order and
/// about the same card.
pub proof fn law_every_marked_card_gets_an_action(
    b: BoardModel,
    accounts: Map<Seq<char>, LinearAccountModel>,
)
    ensures
        drain_actions(b, accounts).len() == pending_pushes(b).len(),
        forall|k: int|
            0 <= k < pending_pushes(b).len() ==> card_of(#[trigger] drain_actions(b, accounts)[k])
                == pending_pushes(b)[k].id,
{
    assert forall|k: int| 0 <= k < pending_pushes(b).len() implies card_of(
        #[trigger] drain_actions(b, accounts)[k],
    ) == pending_pushes(b)[k].id by {
        assert(drain_actions(b, accounts)[k] == decision(accounts, pending_pushes(b)[k]));
    }
}

/// A push that succeeded puts the state that was written on the card and takes its
/// mark, unless the card was moved meanwhile; of an issue that is gone from Linear
/// the card keeps nothing. All else that callers see of the card stays.
pub proof fn law_push_that_got_through_is_noted(
    b: BoardModel,
    id: Uuid,
    status_id: Uuid,
    state_id: Seq<char>,
    answer: Result<JsonModel, LinearErrorModel>,
    i: int,
)
    requires
        b.issue_at(id) == Some(i),
    ensures
        ({
            let row = settled(b, id, status_id, state_id, answer).issues[i];
            &&& issue_of(row) == issue_of(b.issues[i])
            &&& answer matches Ok(data) ==> (update_succeeded(data) && b.issues[i].status_id
                == status_id ==> {
                &&& !row.linear_sync_pending
                &&& row.linear_state_id == Some(state_id)
                &&& row.linear_issue_id == b.issues[i].linear_issue_id
                &&& row.linear_issue_identifier == b.issues[i].linear_issue_identifier
                &&& row.linear_url == b.issues[i].linear_url
            })
            &&& answer matches Ok(data) ==> (update_succeeded(data) && b.issues[i].status_id
                != status_id ==> row == b.issues[i])
            &&& answer matches Err(LinearErrorModel::NotFound(_)) ==> {
                &&& !row.linear_sync_pending
                &&& row.linear_issue_id is None
                &&& row.linear_issue_identifier is None
                &&& row.linear_url is None
                &&& row.linear_state_id is None
            }
        }),
{
    lemma_first_index(b.issue_ids(), id);
}

/// A card that is left stays as it is, marked; one that is cleared loses its mark and
/// nothing else, unless it was moved meanwhile. No answer is looked at.
pub proof fn law_without_a_push_no_answer_counts(
    b: BoardModel,
    id: Uuid,
    status_id: Uuid,
    reason: Seq<char>,
    answer: Result<JsonModel, LinearErrorModel>,
)
    ensures
        acted(b, ActionModel::Leave { id, reason }, answer) == b,
        b.issue_at(id) matches Some(i) ==> {
            let c = acted(b, ActionModel::Clear { id, status_id, reason }, answer);
            &&& c.issues.len() == b.issues.len()
            &&& b.issues[i].status_id == status_id ==> c.issues[i] == (IssueRowModel {
                linear_sync_pending: false,
                ..b.issues[i]
            })
            &&& b.issues[i].status_id != status_id ==> c == b
        },
{
    if let Some(i) = b.issue_at(id) {
        lemma_first_index(b.issue_ids(), id);
    }
}

/// What is reported of a push is what happened to the card.
pub proof fn law_push_is_reported_as_it_went(answer: Result<JsonModel, LinearErrorModel>)
    ensures
        push_report(answer) == PushReport::Synced <==> (answer matches Ok(data)
            && update_succeeded(data)),
        push_report(answer) == PushReport::Unlinked <==> (answer matches Err(e) && e is NotFound),
        push_report(answer) == PushReport::Transient <==> (answer matches Err(e) && (e
            is RateLimited || e is Http)),
        push_report(answer) == PushReport::GivenUp <==> (match answer {
            Ok(data) => !update_succeeded(data),
            Err(e) => e is Api || e is Malformed,
        }),
        push_report(answer) == PushReport::Stuck <==> (answer matches Err(e) && (e is AuthFailed
            || e is UnknownAccount)),
{
}

/// An account imports when, and only when, it has a token, a team and a board to
/// import to that is named by an identifier; the import is with that token, of that
/// team, to that board, and with the label and the map of the account.
pub proof fn law_import_is_planned_from_the_account(key: Seq<char>, a: LinearAccountModel)
    ensures
        import_plan(key, a) is Some <==> {
            &&& a.token is Some
            &&& a.team_id is Some
            &&& a.import_target_project_id matches Some(t)
            &&& parsed_uuid(t) is Some
        },
        import_plan(key, a) matches Some(p) ==> {
            &&& p.account_key == key
            &&& a.token == Some(p.token)
            &&& a.team_id == Some(p.team_id)
            &&& a.import_target_project_id matches Some(t)
            &&& parsed_uuid(t) == Some(p.target_project_id.bits)
            &&& p.label == a.import_label
            &&& p.state_map == a.state_map
        },
{
}

/// Each account that is configured for an import is planned, and no other is.
pub proof fn law_every_configured_account_is_planned(
    keys: Seq<Seq<char>>,
    accounts: Map<Seq<char>, LinearAccountModel>,
    p: ImportPlanModel,
)
    ensures
        import_plans(keys, accounts).contains(p) <==> exists|i: int|
            0 <= i < keys.len() && import_plan(#[trigger] keys[i], accounts[keys[i]]) == Some(p),
{
    let keep = |k: Seq<char>| imports(accounts, k);
    let plan = |k: Seq<char>| import_plan(k, accounts[k])->0;
    let kept = keys.filter(keep);
    let plans = import_plans(keys, accounts);
    if plans.contains(p) {
        let m = choose|m: int| 0 <= m < plans.len() && plans[m] == p;
        assert(kept.contains(kept[m]));
        lists::lemma_filter_contains(keys, keep, kept[m]);
        let i = choose|i: int| 0 <= i < keys.len() && keys[i] == kept[m];
        assert(import_plan(keys[i], accounts[keys[i]]) == Some(p));
    }
    if exists|i: int|
        0 <= i < keys.len() && import_plan(#[trigger] keys[i], accounts[keys[i]]) == Some(p) {
        let i = choose|i: int|
            0 <= i < keys.len() && import_plan(#[trigger] keys[i], accounts[keys[i]]) == Some(p);
        assert(keys.contains(keys[i]));
        lists::lemma_filter_contains(keys, keep, keys[i]);
        let m = choose|m: int| 0 <= m < kept.len() && kept[m] == keys[i];
        assert(plans[m] == p);
    }
}

/// An import looks back ninety days from the present, to the nanosecond.
pub proof fn law_import_looks_back_ninety_days(now: Timestamp, then: Timestamp)
    requires
        then.secs + 90 * 24 * 60 * 60 == now.secs,
        then.nanos == now.nanos,
    ensures
        import_window(now) == rfc3339_text(then.secs, then.nanos),
{
}

proof fn lemma_all_kept(
    issues: Seq<ImportedIssueModel>,
    keep: spec_fn(ImportedIssueModel) -> bool,
    statuses: Seq<ProjectStatusModel>,
    state_map: Map<Seq<char>, Seq<char>>,
)
    requires
        has_visible(statuses),
        keep == (|x: ImportedIssueModel| import_status(statuses, state_map, x.state_id) is Some),
    ensures
        issues.filter(keep) == issues,
    decreases issues.len(),
{
    reveal(Seq::filter);
    if issues.len() > 0 {
        lemma_all_kept(issues.drop_last(), keep, statuses, state_map);
        law_import_status_is_visible(statuses, state_map, issues.last().state_id);
        assert(issues =~= issues.drop_last().push(issues.last()));
    }
}

} // verus!
