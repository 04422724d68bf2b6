//! Linear accounts, bindings and links.
//!
//! Tokens come in and stay: no answer holds one.
use vstd::prelude::*;

use crate::api::{ApiError, ApiErrorModel};
use crate::board::issues::Issues;
use crate::board::laws::law_linking_keeps_wf;
use crate::board::links::{all_badged, awaits_push, linked_issues, linking, link_of, unlinking};
use crate::board::projects::{account_key_of, bound, BoardProjects};
use crate::board::records::{IssueRowModel, LinearLinkRow, LinearLinkRowModel, SortKey};
use crate::board::{Board, BoardError, BoardModel};
use crate::config::{Config, ConfigModel, LinearAccount, LinearAccountModel, LinearConfigModel};
use crate::ids::{parsed_uuid, Uuid};
use crate::linear::client::{authorization, LinearClient};
use crate::linear::error::{LinearError, LinearErrorModel};
use crate::linear::types::{
    ResolvedIssue, ResolvedIssueModel, WorkflowState, WorkflowStateModel,
};
use crate::string_map::StringMap;
use crate::text;

verus! {

// ---------------------------------------------------------------------------
// Shapes
// ---------------------------------------------------------------------------
/// A Linear account as clients see it: whether it has a token, not which.
#[derive(Debug)]
pub struct LinearAccountView {
    pub key: String,
    pub workspace_name: Option<String>,
    pub team_id: Option<String>,
    pub has_token: bool,
    pub state_map: StringMap<String>,
    pub import_target_project_id: Option<String>,
    pub import_label: Option<String>,
}

/// What a [`LinearAccountView`] holds.
#[verifier::ext_equal]
pub struct LinearAccountViewModel {
    pub key: Seq<char>,
    pub workspace_name: Option<Seq<char>>,
    pub team_id: Option<Seq<char>>,
    pub has_token: bool,
    pub state_map: Map<Seq<char>, Seq<char>>,
    pub import_target_project_id: Option<Seq<char>>,
    pub import_label: Option<Seq<char>>,
}

impl View for LinearAccountView {
    type V = LinearAccountViewModel;

    open spec fn view(&self) -> LinearAccountViewModel {
        LinearAccountViewModel {
            key: self.key@,
            workspace_name: text::opt_text(self.workspace_name),
            team_id: text::opt_text(self.team_id),
            has_token: self.has_token,
            state_map: self.state_map@,
            import_target_project_id: text::opt_text(self.import_target_project_id),
            import_label: text::opt_text(self.import_label),
        }
    }
}

/// What an account is connected with.
#[derive(Debug, PartialEq, Eq)]
pub struct ConnectLinearAccountBody {
    pub key: String,
    pub token: String,
    pub workspace_name: Option<String>,
    pub team_id: Option<String>,
}

/// From columns to workflow states.
#[derive(Debug)]
pub struct SetStateMapBody {
    pub state_map: StringMap<String>,
}

/// What an account imports, and where to.
#[derive(Debug, PartialEq, Eq)]
pub struct SetImportConfigBody {
    /// `None` where nothing is imported. The board must be bound to the account.
    pub import_target_project_id: Option<String>,
    pub import_label: Option<String>,
}

/// A workflow state as clients see it.
#[derive(Debug, PartialEq, Eq)]
pub struct LinearWorkflowStateView {
    pub id: String,
    pub name: String,
    pub state_type: String,
    pub position: SortKey,
}

/// What a [`LinearWorkflowStateView`] holds.
#[verifier::ext_equal]
pub struct LinearWorkflowStateViewModel {
    pub id: Seq<char>,
    pub name: Seq<char>,
    pub state_type: Seq<char>,
    pub position: SortKey,
}

impl View for LinearWorkflowStateView {
    type V = LinearWorkflowStateViewModel;

    open spec fn view(&self) -> LinearWorkflowStateViewModel {
        LinearWorkflowStateViewModel {
            id: self.id@,
            name: self.name@,
            state_type: self.state_type@,
            position: self.position,
        }
    }
}

/// The account that a board is bound to; `None` unbinds it.
#[derive(Debug, PartialEq, Eq)]
pub struct BindProjectBody {
    pub account_key: Option<String>,
}

/// The account that a board is bound to.
#[derive(Debug, PartialEq, Eq)]
pub struct ProjectLinearBindingView {
    pub account_key: Option<String>,
}

/// What a [`ProjectLinearBindingView`] holds.
#[verifier::ext_equal]
pub struct ProjectLinearBindingViewModel {
    pub account_key: Option<Seq<char>>,
}

impl View for ProjectLinearBindingView {
    type V = ProjectLinearBindingViewModel;

    open spec fn view(&self) -> ProjectLinearBindingViewModel {
        ProjectLinearBindingViewModel {
            account_key: text::opt_text(self.account_key),
        }
    }
}

/// The issue that a card is linked to, such as `OOM-123`.
#[derive(Debug, PartialEq, Eq)]
pub struct LinkIssueBody {
    pub identifier: String,
}

/// The link of a card.
#[derive(Debug, PartialEq, Eq)]
pub struct IssueLinkView {
    pub linear_issue_id: String,
    pub linear_issue_identifier: String,
    pub linear_url: String,
    pub linear_state_id: Option<String>,
}

/// What a [`IssueLinkView`] holds.
#[verifier::ext_equal]
pub struct IssueLinkViewModel {
    pub linear_issue_id: Seq<char>,
    pub linear_issue_identifier: Seq<char>,
    pub linear_url: Seq<char>,
    pub linear_state_id: Option<Seq<char>>,
}

impl View for IssueLinkView {
    type V = IssueLinkViewModel;

    open spec fn view(&self) -> IssueLinkViewModel {
        IssueLinkViewModel {
            linear_issue_id: self.linear_issue_id@,
            linear_issue_identifier: self.linear_issue_identifier@,
            linear_url: self.linear_url@,
            linear_state_id: text::opt_text(self.linear_state_id),
        }
    }
}

/// The link of a card, for its badge.
#[derive(Debug, PartialEq, Eq)]
pub struct LinkedIssueView {
    pub issue_id: String,
    pub linear_issue_identifier: String,
    pub linear_url: String,
    pub linear_sync_pending: bool,
}

/// What a [`LinkedIssueView`] holds.
#[verifier::ext_equal]
pub struct LinkedIssueViewModel {
    pub issue_id: Seq<char>,
    pub linear_issue_identifier: Seq<char>,
    pub linear_url: Seq<char>,
    pub linear_sync_pending: bool,
}

impl View for LinkedIssueView {
    type V = LinkedIssueViewModel;

    open spec fn view(&self) -> LinkedIssueViewModel {
        LinkedIssueViewModel {
            issue_id: self.issue_id@,
            linear_issue_identifier: self.linear_issue_identifier@,
            linear_url: self.linear_url@,
            linear_sync_pending: self.linear_sync_pending,
        }
    }
}

// ---------------------------------------------------------------------------
// Accounts
// ---------------------------------------------------------------------------
/// An account as clients see it.
pub open spec fn account_view(key: Seq<char>, a: LinearAccountModel) -> LinearAccountViewModel {
    LinearAccountViewModel {
        key,
        workspace_name: a.workspace_name,
        team_id: a.team_id,
        has_token: a.token is Some,
        state_map: a.state_map,
        import_target_project_id: a.import_target_project_id,
        import_label: a.import_label,
    }
}

/// What clients see of an account is the same whatever its token is: nothing of
/// the token gets out.
pub proof fn law_views_do_not_tell_the_token(
    key: Seq<char>,
    a: LinearAccountModel,
    one: Seq<char>,
    other: Seq<char>,
)
    ensures
        account_view(key, LinearAccountModel { token: Some(one), ..a }) == account_view(
            key,
            LinearAccountModel { token: Some(other), ..a },
        ),
{
}

impl LinearAccountView {
    /// An account as clients see it.
    pub fn of(key: &str, account: &LinearAccount) -> (r: LinearAccountView)
        ensures
            r@ == account_view(key@, account@),
    {
        LinearAccountView {
            key: key.to_owned(),
            workspace_name: text::copy_option(&account.workspace_name),
            team_id: text::copy_option(&account.team_id),
            has_token: account.token.is_some(),
            state_map: account.state_map.duplicate(),
            import_target_project_id: text::copy_option(&account.import_target_project_id),
            import_label: text::copy_option(&account.import_label),
        }
    }
}

/// Whether `views` are the accounts as clients see them, each once and in
/// ascending order of the keys.
pub open spec fn lists_accounts(
    accounts: Map<Seq<char>, LinearAccountModel>,
    views: Seq<LinearAccountViewModel>,
) -> bool {
    &&& forall|i: int|
        0 <= i < views.len() ==> accounts.dom().contains((#[trigger] views[i]).key) && views[i]
            == account_view(views[i].key, accounts[views[i].key])
    &&& forall|i: int, j: int|
        0 <= i < j < views.len() ==> text::precedes(
            (#[trigger] views[i]).key,
            (#[trigger] views[j]).key,
        )
    &&& forall|k: Seq<char>| #[trigger]
        accounts.dom().contains(k) ==> exists|i: int|
            0 <= i < views.len() && (#[trigger] views[i]).key == k
}

/// The accounts, by key.
pub fn list_accounts(cfg: &Config) -> (r: Vec<LinearAccountView>)
    ensures
        lists_accounts(cfg@.linear.accounts, r@.map_values(|v: LinearAccountView| v@)),
{
    let accounts = &cfg.linear.accounts;
    let ghost keys = accounts.keys_in_order();
    let perm = accounts.order_by_key();
    let mut out: Vec<LinearAccountView> = Vec::new();
    for i in 0..perm.len()
        invariant
            out@.len() == i,
            keys == accounts.keys_in_order(),
            perm@.len() == keys.len(),
            forall|j: int| 0 <= j < perm@.len() ==> (#[trigger] perm@[j]) < perm@.len(),
            forall|j: int|
                0 <= j < i ==> (#[trigger] out@[j])@.key == keys[perm@[j] as int]
                    && accounts@.dom().contains(out@[j]@.key) && out@[j]@ == account_view(
                    out@[j]@.key,
                    accounts@[out@[j]@.key],
                ),
    {
        let (key, account) = accounts.entry(perm[i]);
        out.push(LinearAccountView::of(key, account));
    }
    let ghost views = out@.map_values(|v: LinearAccountView| v@);
    proof {
        accounts.lemma_keys_in_order();
        assert forall|k: Seq<char>| #[trigger]
            accounts@.dom().contains(k) implies exists|i: int|
            0 <= i < views.len() && (#[trigger] views[i]).key == k by {
            assert(keys.contains(k));
            let v = choose|v: int| 0 <= v < keys.len() && keys[v] == k;
            assert(perm@.contains(v as usize));
            let i = choose|i: int| 0 <= i < perm@.len() && perm@[i] == v as usize;
            assert(views[i] == out@[i]@);
        }
        assert forall|i: int, j: int| 0 <= i < j < views.len() implies text::precedes(
            (#[trigger] views[i]).key,
            (#[trigger] views[j]).key,
        ) by {
            assert(views[i] == out@[i]@ && views[j] == out@[j]@);
            assert(text::precedes(keys[perm@[i] as int], keys[perm@[j] as int]));
        }
        assert forall|i: int| 0 <= i < views.len() implies accounts@.dom().contains(
            (#[trigger] views[i]).key,
        ) && views[i] == account_view(views[i].key, accounts@[views[i].key]) by {
            assert(views[i] == out@[i]@);
        }
    }
    out
}

/// What of an account is kept when it is connected anew.
#[verifier::ext_equal]
pub struct KeptSettings {
    pub state_map: Map<Seq<char>, Seq<char>>,
    pub import_target_project_id: Option<Seq<char>>,
    pub import_label: Option<Seq<char>>,
}

/// What of an account is kept when it is connected anew: the settings that go with
/// the team, as long as the team is the same.
pub open spec fn kept_settings(
    previous: Option<LinearAccountModel>,
    team_id: Option<Seq<char>>,
) -> KeptSettings {
    match previous {
        Some(prev) => if prev.team_id == team_id {
            KeptSettings {
                state_map: prev.state_map,
                import_target_project_id: prev.import_target_project_id,
                import_label: prev.import_label,
            }
        } else {
            KeptSettings {
                state_map: Map::empty(),
                import_target_project_id: None,
                import_label: None,
            }
        },
        None => KeptSettings {
            state_map: Map::empty(),
            import_target_project_id: None,
            import_label: None,
        },
    }
}

/// Decides what of an account is kept when it is connected anew.
pub fn preserved_on_reconnect(previous: Option<&LinearAccount>, new_team_id: Option<&str>) -> (r: (
    StringMap<String>,
    Option<String>,
    Option<String>,
))
    ensures
        ({
            let k = kept_settings(
                match previous {
                    Some(a) => Some(a@),
                    None => None,
                },
                text::opt_str(new_team_id),
            );
            &&& r.0@ == k.state_map
            &&& text::opt_text(r.1) == k.import_target_project_id
            &&& text::opt_text(r.2) == k.import_label
        }),
{
    if let Some(prev) = previous {
        let unchanged = match (&prev.team_id, new_team_id) {
            (Some(a), Some(b)) => text::same(a.as_str(), b),
            (None, None) => true,
            _ => false,
        };
        if unchanged {
            return (
                prev.state_map.duplicate(),
                text::copy_option(&prev.import_target_project_id),
                text::copy_option(&prev.import_label),
            );
        }
    }
    (StringMap::new(), None, None)
}

/// A configuration with other accounts.
pub open spec fn with_accounts(
    c: ConfigModel,
    accounts: Map<Seq<char>, LinearAccountModel>,
) -> ConfigModel {
    ConfigModel { linear: LinearConfigModel { accounts }, ..c }
}

/// The account that a configuration holds under a key.
pub open spec fn account_at(c: ConfigModel, key: Seq<char>) -> Option<LinearAccountModel> {
    if c.linear.accounts.dom().contains(key) {
        Some(c.linear.accounts[key])
    } else {
        None
    }
}

/// A configuration that is to be saved, and the answer for when it is.
pub struct ConfigChange {
    pub next: Config,
    pub view: LinearAccountView,
}

/// What a request to change the configuration comes to.
pub open spec fn change_of(r: Result<ConfigChange, ApiError>) -> Result<
    (ConfigModel, LinearAccountViewModel),
    ApiErrorModel,
> {
    match r {
        Ok(c) => Ok((c.next@, c.view@)),
        Err(e) => Err(e@),
    }
}

/// The configuration once a change of it was saved, or was not: what is in memory
/// is never ahead of what is on disk.
pub fn commit(current: Config, next: Config, saved: Result<(), String>) -> (r: (
    Config,
    Result<(), ApiError>,
))
    ensures
        match saved {
            Ok(_) => r.0 == next && r.1 is Ok,
            Err(e) => r.0 == current && (r.1 matches Err(f) && f@ == ApiErrorModel::BadRequest(
                "failed to save config: "@ + e@,
            )),
        },
{
    match saved {
        Ok(_) => (next, Ok(())),
        Err(e) => (
            current,
            Err(ApiError::BadRequest(text::join("failed to save config: ", e.as_str()))),
        ),
    }
}

/// The account that a request connects.
pub open spec fn connected_account(
    c: ConfigModel,
    body: ConnectLinearAccountBody,
) -> LinearAccountModel {
    let kept = kept_settings(
        account_at(c, text::trimmed(body.key@)),
        text::opt_text(body.team_id),
    );
    LinearAccountModel {
        token: Some(body.token@),
        workspace_name: text::opt_text(body.workspace_name),
        team_id: text::opt_text(body.team_id),
        state_map: kept.state_map,
        import_target_project_id: kept.import_target_project_id,
        import_label: kept.import_label,
    }
}

/// What a request to connect an account comes to.
pub open spec fn connection(c: ConfigModel, body: ConnectLinearAccountBody) -> Result<
    (ConfigModel, LinearAccountViewModel),
    ApiErrorModel,
> {
    let key = text::trimmed(body.key@);
    if key.len() == 0 {
        Err(ApiErrorModel::BadRequest("account key must not be empty"@))
    } else if text::trimmed(body.token@).len() == 0 {
        Err(ApiErrorModel::BadRequest("token must not be empty"@))
    } else {
        let account = connected_account(c, body);
        Ok(
            (
                with_accounts(c, c.linear.accounts.insert(key, account)),
                account_view(key, account),
            ),
        )
    }
}

fn is_blank(s: &str) -> (r: bool)
    ensures
        r == (text::trimmed(s@).len() == 0),
{
    let t = text::trim(s);
    text::chars_of(t).len() == 0
}

/// Connects an account, or connects it anew.
pub fn connect_account(cfg: &Config, body: ConnectLinearAccountBody) -> (r: Result<
    ConfigChange,
    ApiError,
>)
    ensures
        change_of(r) == connection(cfg@, body),
{
    if is_blank(body.key.as_str()) {
        return Err(ApiError::BadRequest("account key must not be empty".to_owned()));
    }
    if is_blank(body.token.as_str()) {
        return Err(ApiError::BadRequest("token must not be empty".to_owned()));
    }
    let key = text::trim(body.key.as_str()).to_owned();
    let previous = cfg.linear.accounts.get(key.as_str());
    let team = match &body.team_id {
        Some(t) => Some(t.as_str()),
        None => None,
    };
    let (state_map, import_target_project_id, import_label) = preserved_on_reconnect(
        previous,
        team,
    );
    let account = LinearAccount {
        token: Some(body.token),
        workspace_name: body.workspace_name,
        team_id: body.team_id,
        state_map,
        import_target_project_id,
        import_label,
    };
    assert(account@ == connected_account(cfg@, body));
    let view = LinearAccountView::of(key.as_str(), &account);
    let mut next = cfg.clone();
    next.linear.accounts.insert(key, account);
    Ok(ConfigChange { next, view })
}

/// The configuration without an account.
pub fn remove_account(cfg: &Config, key: &str) -> (r: Config)
    ensures
        r@ == with_accounts(cfg@, cfg@.linear.accounts.remove(key@)),
{
    let mut next = cfg.clone();
    next.linear.accounts.remove(key);
    next
}

/// That an account is not known.
pub open spec fn unknown_account(key: Seq<char>) -> ApiErrorModel {
    ApiErrorModel::BadRequest("unknown Linear account '"@ + key + "'"@)
}

fn unknown(key: &str) -> (r: ApiError)
    ensures
        r@ == unknown_account(key@),
{
    ApiError::BadRequest(text::join3("unknown Linear account '", key, "'"))
}

/// What a change of an account comes to.
pub open spec fn account_change(
    c: ConfigModel,
    key: Seq<char>,
    account: LinearAccountModel,
) -> (ConfigModel, LinearAccountViewModel) {
    (with_accounts(c, c.linear.accounts.insert(key, account)), account_view(key, account))
}

fn change_account(cfg: &Config, key: &str, account: LinearAccount) -> (r: ConfigChange)
    ensures
        (r.next@, r.view@) == account_change(cfg@, key@, account@),
{
    let view = LinearAccountView::of(key, &account);
    let mut next = cfg.clone();
    next.linear.accounts.insert(key.to_owned(), account);
    ConfigChange { next, view }
}

/// Sets the map of an account from columns to states.
pub fn set_state_map(cfg: &Config, key: &str, body: SetStateMapBody) -> (r: Result<
    ConfigChange,
    ApiError,
>)
    ensures
        change_of(r) == match account_at(cfg@, key@) {
            None => Err(unknown_account(key@)),
            Some(a) => Ok(
                account_change(
                    cfg@,
                    key@,
                    LinearAccountModel { state_map: body.state_map@, ..a },
                ),
            ),
        },
{
    let account = match cfg.linear.accounts.get(key) {
        Some(account) => account,
        None => return Err(unknown(key)),
    };
    let mut changed = account.clone();
    changed.state_map = body.state_map;
    Ok(change_account(cfg, key, changed))
}

/// Why a board cannot be imported to, where it cannot: it has to be bound to the
/// account, lest moves of the cards be written with the token of another.
pub open spec fn import_target_fault(
    b: BoardModel,
    key: Seq<char>,
    target: Option<Seq<char>>,
) -> Option<ApiErrorModel> {
    match target {
        None => None,
        Some(raw) => match parsed_uuid(raw) {
            None => Some(
                ApiErrorModel::BadRequest("import_target_project_id is not a valid UUID"@),
            ),
            Some(bits) => {
                let bound = account_key_of(b, Uuid { bits });
                if bound == Some(key) {
                    None
                } else {
                    Some(
                        ApiErrorModel::BadRequest(
                            "import target project must be bound to account '"@ + key
                                + "' (currently bound to "@ + text::shown_option(bound) + ")"@,
                        ),
                    )
                }
            },
        },
    }
}

/// What a request to set an import comes to.
pub open spec fn import_setting_change(
    c: ConfigModel,
    b: BoardModel,
    key: Seq<char>,
    target: Option<Seq<char>>,
    label: Option<Seq<char>>,
) -> Result<(ConfigModel, LinearAccountViewModel), ApiErrorModel> {
    match account_at(c, key) {
        None => Err(unknown_account(key)),
        Some(a) => match import_target_fault(b, key, target) {
            Some(e) => Err(e),
            None => Ok(
                account_change(
                    c,
                    key,
                    LinearAccountModel {
                        import_target_project_id: target,
                        import_label: label,
                        ..a
                    },
                ),
            ),
        },
    }
}

/// Checks that a board can be imported to.
fn check_import_target(board: &Board, key: &str, target: &Option<String>) -> (r: Result<
    (),
    ApiError,
>)
    ensures
        match r {
            Ok(_) => import_target_fault(board@, key@, text::opt_text(*target)) is None,
            Err(e) => import_target_fault(board@, key@, text::opt_text(*target)) == Some(e@),
        },
{
    let raw = match target {
        Some(raw) => raw,
        None => return Ok(()),
    };
    let id = match Uuid::parse_str(raw.as_str()) {
        Some(id) => id,
        None => return Err(
            ApiError::BadRequest("import_target_project_id is not a valid UUID".to_owned()),
        ),
    };
    let bound = BoardProjects::linear_account_key(board, id);
    if text::is_some_text(&bound, key) {
        return Ok(());
    }
    let shown = text::show_option(&bound);
    let head = text::join3(
        "import target project must be bound to account '",
        key,
        "' (currently bound to ",
    );
    Err(ApiError::BadRequest(text::join3(head.as_str(), shown.as_str(), ")")))
}

/// Sets what an account imports, and where to.
pub fn set_import_config(
    cfg: &Config,
    board: &Board,
    key: &str,
    body: SetImportConfigBody,
) -> (r: Result<ConfigChange, ApiError>)
    ensures
        change_of(r) == import_setting_change(
            cfg@,
            board@,
            key@,
            text::opt_text(body.import_target_project_id),
            text::opt_text(body.import_label),
        ),
{
    let account = match cfg.linear.accounts.get(key) {
        Some(account) => account,
        None => return Err(unknown(key)),
    };
    if let Err(e) = check_import_target(board, key, &body.import_target_project_id) {
        return Err(e);
    }
    let mut changed = account.clone();
    changed.import_target_project_id = body.import_target_project_id;
    changed.import_label = body.import_label;
    Ok(change_account(cfg, key, changed))
}

/// What the request for workflow states needs: credentials and a team.
pub open spec fn states_access(c: ConfigModel, key: Seq<char>) -> Result<
    (Seq<char>, Seq<char>),
    ApiErrorModel,
> {
    match account_at(c, key) {
        None => Err(unknown_account(key)),
        Some(a) => match a.token {
            None => Err(ApiErrorModel::BadRequest("account '"@ + key + "' has no token"@)),
            Some(token) => match a.team_id {
                None => Err(
                    ApiErrorModel::BadRequest("account '"@ + key + "' has no team configured"@),
                ),
                Some(team) => Ok((authorization(token), team)),
            },
        },
    }
}

/// Finds what the request for workflow states needs.
pub fn workflow_states_access(cfg: &Config, key: &str) -> (r: Result<
    (LinearClient, String),
    ApiError,
>)
    ensures
        match r {
            Ok(p) => states_access(cfg@, key@) matches Ok(q) && q.0 == p.0@ && q.1 == p.1@,
            Err(e) => states_access(cfg@, key@) matches Err(f) && f == e@,
        },
{
    let account = match cfg.linear.accounts.get(key) {
        Some(account) => account,
        None => return Err(unknown(key)),
    };
    let token = match &account.token {
        Some(token) => token,
        None => return Err(ApiError::BadRequest(text::join3("account '", key, "' has no token"))),
    };
    let team = match &account.team_id {
        Some(team) => team.clone(),
        None => return Err(
            ApiError::BadRequest(text::join3("account '", key, "' has no team configured")),
        ),
    };
    Ok((LinearClient::new(token.as_str()), team))
}

/// A workflow state as clients see it.
pub open spec fn state_view(s: WorkflowStateModel) -> LinearWorkflowStateViewModel {
    LinearWorkflowStateViewModel {
        id: s.id,
        name: s.name,
        state_type: s.state_type,
        position: s.position,
    }
}

/// The workflow states of a team as clients see them.
pub fn list_workflow_states(states: Result<Vec<WorkflowState>, LinearError>) -> (r: Result<
    Vec<LinearWorkflowStateView>,
    ApiError,
>)
    ensures
        match states {
            Ok(v) => r matches Ok(w) && w@.map_values(|x: LinearWorkflowStateView| x@)
                == v@.map_values(|s: WorkflowState| state_view(s@)),
            Err(e) => r matches Err(f) && f@ == api_error(e@),
        },
{
    let states = match states {
        Ok(v) => v,
        Err(e) => return Err(linear_err(e)),
    };
    let ghost all = states@;
    let mut out: Vec<LinearWorkflowStateView> = Vec::new();
    for s in it: states
        invariant
            out@.len() == it.index(),
            it.seq() == all,
            forall|j: int|
                0 <= j < it.index() ==> (#[trigger] out@[j])@ == state_view(all[j]@),
    {
        out.push(
            LinearWorkflowStateView {
                id: s.id,
                name: s.name,
                state_type: s.state_type,
                position: s.position,
            },
        );
    }
    assert(out@.map_values(|x: LinearWorkflowStateView| x@) =~= all.map_values(
        |s: WorkflowState| state_view(s@),
    ));
    Ok(out)
}

// ---------------------------------------------------------------------------
// Bindings
// ---------------------------------------------------------------------------
/// The account that a board is bound to.
pub fn get_project_binding(board: &Board, id: Uuid) -> (r: ProjectLinearBindingView)
    ensures
        r@.account_key == account_key_of(board@, id),
{
    ProjectLinearBindingView { account_key: BoardProjects::linear_account_key(board, id) }
}

/// Binds a board to an account, which has to be configured, or unbinds it.
pub fn bind_project(cfg: &Config, board: &mut Board, id: Uuid, body: BindProjectBody) -> (r: Result<
    (),
    ApiError,
>)
    ensures
        match text::opt_text(body.account_key) {
            Some(key) => if account_at(cfg@, key) is Some {
                r is Ok && final(board)@ == bound(old(board)@, id, Some(key))
            } else {
                (r matches Err(e) && e@ == unknown_account(key)) && final(board)@ == old(board)@
            },
            None => r is Ok && final(board)@ == bound(old(board)@, id, None),
        },
{
    if let Some(key) = &body.account_key {
        if !cfg.linear.accounts.contains_key(key.as_str()) {
            return Err(unknown(key.as_str()));
        }
    }
    BoardProjects::set_linear_account_key(board, id, body.account_key);
    Ok(())
}

// ---------------------------------------------------------------------------
// Links
// ---------------------------------------------------------------------------
/// The link of a card as its badge shows it.
pub open spec fn badge_of(row: LinearLinkRowModel) -> LinkedIssueViewModel {
    LinkedIssueViewModel {
        issue_id: row.issue_id.key(),
        linear_issue_identifier: row.linear_issue_identifier,
        linear_url: row.linear_url,
        linear_sync_pending: row.linear_sync_pending != 0,
    }
}

/// The links of the cards of a board.
pub fn list_project_links(board: &Board, id: Uuid) -> (r: Result<Vec<LinkedIssueView>, ApiError>)
    ensures
        ({
            let rows = linked_issues(board@, id);
            match r {
                Ok(v) => all_badged(rows) && v@.map_values(|x: LinkedIssueView| x@)
                    == rows.map_values(|x: IssueRowModel| badge_of(link_of(x))),
                Err(e) => !all_badged(rows) && e@ == ApiErrorModel::Board(
                    BoardError::MissingValue,
                ),
            }
        }),
{
    let rows = match Issues::list_linear_links(board, id) {
        Ok(rows) => rows,
        Err(e) => return Err(ApiError::Board(e)),
    };
    let ghost all = rows@;
    let ghost issues = linked_issues(board@, id);
    let mut out: Vec<LinkedIssueView> = Vec::new();
    for row in it: rows
        invariant
            out@.len() == it.index(),
            it.seq() == all,
            forall|j: int| 0 <= j < it.index() ==> (#[trigger] out@[j])@ == badge_of(all[j]@),
    {
        out.push(
            LinkedIssueView {
                issue_id: row.issue_id.to_string(),
                linear_issue_identifier: row.linear_issue_identifier,
                linear_url: row.linear_url,
                linear_sync_pending: row.linear_sync_pending != 0,
            },
        );
    }
    proof {
        let shown = all.map_values(|x: LinearLinkRow| x@);
        let links = issues.map_values(|x: IssueRowModel| link_of(x));
        assert(shown == links);
        assert(links.len() == issues.len());
        assert forall|j: int| 0 <= j < all.len() implies (#[trigger] out@[j])@ == badge_of(
            link_of(issues[j]),
        ) by {
            assert(shown[j] == all[j]@);
            assert(links[j] == link_of(issues[j]));
        }
        assert(out@.map_values(|x: LinkedIssueView| x@) =~= issues.map_values(
            |x: IssueRowModel| badge_of(link_of(x)),
        ));
    }
    Ok(out)
}

/// What is known about a card that is to be linked, before Linear is asked.
#[derive(Debug, PartialEq, Eq)]
pub struct LinkPlan {
    pub identifier: String,
    pub account_key: String,
    pub token: String,
    /// The team that the issue has to belong to.
    pub expected_team: Option<String>,
    /// The state that the column of the card is mapped to.
    pub mapped_target: Option<String>,
}

/// What a [`LinkPlan`] holds.
#[verifier::ext_equal]
pub struct LinkPlanModel {
    pub identifier: Seq<char>,
    pub account_key: Seq<char>,
    pub token: Seq<char>,
    pub expected_team: Option<Seq<char>>,
    pub mapped_target: Option<Seq<char>>,
}

impl View for LinkPlan {
    type V = LinkPlanModel;

    open spec fn view(&self) -> LinkPlanModel {
        LinkPlanModel {
            identifier: self.identifier@,
            account_key: self.account_key@,
            token: self.token@,
            expected_team: text::opt_text(self.expected_team),
            mapped_target: text::opt_text(self.mapped_target),
        }
    }
}

/// What is known about a card that is to be linked, or why it cannot be.
pub open spec fn link_plan(
    b: BoardModel,
    c: ConfigModel,
    id: Uuid,
    identifier: Seq<char>,
) -> Result<LinkPlanModel, ApiErrorModel> {
    let wanted = text::trimmed(identifier);
    if wanted.len() == 0 {
        Err(ApiErrorModel::BadRequest("identifier must not be empty"@))
    } else {
        match b.issue_at(id) {
            None => Err(ApiErrorModel::BadRequest("no such card "@ + id.key())),
            Some(i) => match account_key_of(b, b.issues[i].project_id) {
                None => Err(
                    ApiErrorModel::BadRequest(
                        "this card's board is not bound to a Linear account; bind it first"@,
                    ),
                ),
                Some(key) => match account_at(c, key) {
                    None => Err(
                        ApiErrorModel::BadRequest(
                            "board is bound to unknown account '"@ + key + "'"@,
                        ),
                    ),
                    Some(a) => match a.token {
                        None => Err(
                            ApiErrorModel::BadRequest("account '"@ + key + "' has no token"@),
                        ),
                        Some(token) => Ok(
                            LinkPlanModel {
                                identifier: wanted,
                                account_key: key,
                                token,
                                expected_team: a.team_id,
                                mapped_target: {
                                    let column = b.issues[i].status_id.key();
                                    if a.state_map.dom().contains(column) {
                                        Some(a.state_map[column])
                                    } else {
                                        None
                                    }
                                },
                            },
                        ),
                    },
                },
            },
        }
    }
}

/// Finds out what is known about a card that is to be linked.
pub fn plan_link(board: &Board, cfg: &Config, id: Uuid, body: &LinkIssueBody) -> (r: Result<
    LinkPlan,
    ApiError,
>)
    ensures
        match r {
            Ok(p) => link_plan(board@, cfg@, id, body.identifier@) matches Ok(q) && q == p@,
            Err(e) => link_plan(board@, cfg@, id, body.identifier@) matches Err(f) && f == e@,
        },
{
    let identifier = text::trim(body.identifier.as_str());
    if text::chars_of(identifier).len() == 0 {
        return Err(ApiError::BadRequest("identifier must not be empty".to_owned()));
    }
    let issue = match Issues::get(board, id) {
        Some(issue) => issue,
        None => {
            let shown = id.to_string();
            return Err(ApiError::BadRequest(text::join("no such card ", shown.as_str())));
        },
    };
    let account_key = match BoardProjects::linear_account_key(board, issue.project_id) {
        Some(key) => key,
        None => return Err(
            ApiError::BadRequest(
                "this card's board is not bound to a Linear account; bind it first".to_owned(),
            ),
        ),
    };
    let account = match cfg.linear.accounts.get(account_key.as_str()) {
        Some(account) => account,
        None => return Err(
            ApiError::BadRequest(
                text::join3("board is bound to unknown account '", account_key.as_str(), "'"),
            ),
        ),
    };
    let token = match &account.token {
        Some(token) => token.clone(),
        None => return Err(
            ApiError::BadRequest(
                text::join3("account '", account_key.as_str(), "' has no token"),
            ),
        ),
    };
    let column = issue.status_id.to_string();
    let mapped_target = match account.state_map.get(column.as_str()) {
        Some(state) => Some(state.clone()),
        None => None,
    };
    Ok(
        LinkPlan {
            identifier: identifier.to_owned(),
            account_key,
            token,
            expected_team: text::copy_option(&account.team_id),
            mapped_target,
        },
    )
}

/// Whether the column of a card has to be written to an issue that it is linked
/// to: where it is mapped to another state than the issue is in. The board wins.
pub open spec fn diverges(plan: LinkPlanModel, issue: ResolvedIssueModel) -> bool {
    plan.mapped_target is Some && plan.mapped_target != issue.state_id
}

/// What linking a card to the issue that was found comes to.
pub open spec fn link_outcome(
    b: BoardModel,
    id: Uuid,
    plan: LinkPlanModel,
    issue: ResolvedIssueModel,
) -> Result<BoardModel, ApiErrorModel> {
    if plan.expected_team is Some && plan.expected_team != Some(issue.team_id) {
        Err(
            ApiErrorModel::BadRequest(
                plan.identifier + " belongs to a different Linear team than account '"@
                    + plan.account_key + "'"@,
            ),
        )
    } else {
        match linking(
            b,
            id,
            issue.id,
            issue.identifier,
            issue.url,
            issue.state_id,
            diverges(plan, issue),
        ) {
            Ok(c) => Ok(c),
            Err(e) => if e == BoardError::UniqueViolation {
                Err(
                    ApiErrorModel::Conflict(
                        plan.identifier + " is already linked to another card"@,
                    ),
                )
            } else {
                Err(ApiErrorModel::Board(e))
            },
        }
    }
}

/// The link of a card as clients see it.
pub open spec fn issue_link(issue: ResolvedIssueModel) -> IssueLinkViewModel {
    IssueLinkViewModel {
        linear_issue_id: issue.id,
        linear_issue_identifier: issue.identifier,
        linear_url: issue.url,
        linear_state_id: issue.state_id,
    }
}

/// Links a card to the issue that Linear found. The flag that comes back says
/// whether the mirror has to be woken.
pub fn link_issue(
    board: &mut Board,
    id: Uuid,
    plan: &LinkPlan,
    found: Result<ResolvedIssue, LinearError>,
) -> (r: Result<(IssueLinkView, bool), ApiError>)
    ensures
        match found {
            Err(e) => (r matches Err(f) && f@ == api_error(e@)) && final(board)@ == old(board)@,
            Ok(issue) => match link_outcome(old(board)@, id, plan@, issue@) {
                Ok(b) => {
                    &&& r matches Ok(p)
                    &&& p.0@ == issue_link(issue@)
                    &&& p.1 == diverges(plan@, issue@)
                    &&& final(board)@ == b
                },
                Err(e) => (r matches Err(f) && f@ == e) && final(board)@ == old(board)@,
            },
        },
{
    let issue = match found {
        Ok(issue) => issue,
        Err(e) => return Err(linear_err(e)),
    };
    if let Some(team) = &plan.expected_team {
        if !text::same(issue.team_id.as_str(), team.as_str()) {
            let head = text::join(
                plan.identifier.as_str(),
                " belongs to a different Linear team than account '",
            );
            return Err(
                ApiError::BadRequest(
                    text::join3(head.as_str(), plan.account_key.as_str(), "'"),
                ),
            );
        }
    }
    let sync_pending = match &plan.mapped_target {
        Some(target) => !text::is_some_text(&issue.state_id, target.as_str()),
        None => false,
    };
    assert(sync_pending == diverges(plan@, issue@));
    let state = match &issue.state_id {
        Some(s) => Some(s.as_str()),
        None => None,
    };
    match Issues::link_linear(
        board,
        id,
        issue.id.as_str(),
        issue.identifier.as_str(),
        issue.url.as_str(),
        state,
        sync_pending,
    ) {
        Ok(_) => Ok(
            (
                IssueLinkView {
                    linear_issue_id: issue.id,
                    linear_issue_identifier: issue.identifier,
                    linear_url: issue.url,
                    linear_state_id: issue.state_id,
                },
                sync_pending,
            ),
        ),
        Err(e) => if e == BoardError::UniqueViolation {
            Err(
                ApiError::Conflict(
                    text::join(plan.identifier.as_str(), " is already linked to another card"),
                ),
            )
        } else {
            Err(ApiError::Board(e))
        },
    }
}

/// Unlinks a card.
pub fn unlink_issue(board: &mut Board, id: Uuid)
    ensures
        final(board)@ == unlinking(old(board)@, id),
{
    Issues::unlink_linear(board, id);
}

/// What an error of Linear is answered with: a lack of permission and what is not
/// found are the client's, the rest is the gateway's.
pub open spec fn api_error(e: LinearErrorModel) -> ApiErrorModel {
    match e {
        LinearErrorModel::AuthFailed(m) => ApiErrorModel::Forbidden("Linear auth failed: "@ + m),
        LinearErrorModel::NotFound(m) => ApiErrorModel::BadRequest("not found in Linear: "@ + m),
        other => ApiErrorModel::BadGateway("Linear API error: "@ + other.words()),
    }
}

/// Answers an error of Linear.
pub fn linear_err(e: LinearError) -> (r: ApiError)
    ensures
        r@ == api_error(e@),
{
    match e {
        LinearError::AuthFailed(m) => ApiError::Forbidden(
            text::join("Linear auth failed: ", m.as_str()),
        ),
        LinearError::NotFound(m) => ApiError::BadRequest(
            text::join("not found in Linear: ", m.as_str()),
        ),
        other => {
            let words = other.to_string();
            ApiError::BadGateway(text::join("Linear API error: ", words.as_str()))
        },
    }
}

// ---------------------------------------------------------------------------
// Laws
// ---------------------------------------------------------------------------
/// Connecting an account anew with the same team keeps its map and its import;
/// with another team, or with none, it clears them. The token is the new one.
pub proof fn law_reconnecting_keeps_what_goes_with_the_team(
    c: ConfigModel,
    body: ConnectLinearAccountBody,
    previous: LinearAccountModel,
)
    requires
        account_at(c, text::trimmed(body.key@)) == Some(previous),
    ensures
        ({
            let a = connected_account(c, body);
            &&& a.token == Some(body.token@)
            &&& previous.team_id == text::opt_text(body.team_id) ==> a.state_map
                == previous.state_map && a.import_target_project_id
                == previous.import_target_project_id && a.import_label == previous.import_label
            &&& previous.team_id != text::opt_text(body.team_id) ==> a.state_map
                == Map::<Seq<char>, Seq<char>>::empty() && a.import_target_project_id is None
                && a.import_label is None
        }),
{
}

/// A link leaves the card and the issue in the same state, or the card is among
/// those that await a push: they do not diverge in silence.
pub proof fn law_linked_cards_do_not_diverge(
    b: BoardModel,
    id: Uuid,
    i: int,
    plan: LinkPlanModel,
    issue: ResolvedIssueModel,
)
    requires
        b.issue_at(id) == Some(i),
        b.project_at(b.issues[i].project_id) is Some,
        plan.mapped_target is Some,
        link_outcome(b, id, plan, issue) is Ok,
    ensures
        ({
            let c = link_outcome(b, id, plan, issue)->Ok_0;
            plan.mapped_target == issue.state_id || awaits_push(c, c.issues[i])
        }),
{
    crate::board::lemma_first_index(b.issue_ids(), id);
    let c = link_outcome(b, id, plan, issue)->Ok_0;
    assert(c.project_ids() == b.project_ids());
}

/// Whatever is configured for an import, its target is a board that is bound to
/// the account.
pub proof fn law_import_target_is_bound(
    c: ConfigModel,
    b: BoardModel,
    key: Seq<char>,
    target: Seq<char>,
    label: Option<Seq<char>>,
)
    requires
        import_setting_change(c, b, key, Some(target), label) is Ok,
    ensures
        parsed_uuid(target) matches Some(bits) && account_key_of(b, Uuid { bits }) == Some(key),
{
}

/// Linking through a request keeps the invariant of the board.
pub proof fn law_link_requests_keep_wf(
    b: BoardModel,
    id: Uuid,
    plan: LinkPlanModel,
    issue: ResolvedIssueModel,
)
    requires
        b.wf(),
    ensures
        link_outcome(b, id, plan, issue) matches Ok(c) ==> c.wf(),
{
    law_linking_keeps_wf(
        b,
        id,
        issue.id,
        issue.identifier,
        issue.url,
        issue.state_id,
        diverges(plan, issue),
    );
}

} // verus!
