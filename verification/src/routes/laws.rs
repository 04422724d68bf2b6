//! What holds of every answer to a request.
use vstd::prelude::*;

use crate::api::{ApiError, ApiErrorModel};
use crate::board::links::link_of;
use crate::board::projects::account_key_of;
use crate::board::records::IssueRowModel;
use crate::board::{lemma_first_index, BoardModel};
use crate::config::{ConfigModel, LinearAccountModel};
use crate::ids::{parsed_uuid, Uuid};
use crate::json::JsonModel;
use crate::linear::client::authorization;
use crate::linear::error::LinearErrorModel;
use crate::linear::types::{ResolvedIssueModel, WorkflowStateModel};
use crate::routes::board_v1::{board_answer, bulk_item, status_removal_fault, table_of};
use crate::routes::linear::{
    account_change, account_view, api_error, badge_of, change_of, connection, diverges,
    import_setting_change, issue_link, link_outcome, link_plan, lists_accounts, state_view,
    states_access, unknown_account, with_accounts, ConfigChange, ConnectLinearAccountBody,
    LinearAccountViewModel, LinkPlanModel,
};
use crate::text;

verus! {

// ---------------------------------------------------------------------------
// Accounts
// ---------------------------------------------------------------------------
/// Clients see of an account its key, workspace, team, map, import target and
/// label, each under its own name, and whether it has a token.
pub proof fn law_account_is_seen_by_name(key: Seq<char>, a: LinearAccountModel)
    ensures
        account_view(key, a).key == key,
        account_view(key, a).workspace_name == a.workspace_name,
        account_view(key, a).team_id == a.team_id,
        account_view(key, a).has_token <==> a.token is Some,
        account_view(key, a).state_map == a.state_map,
        account_view(key, a).import_target_project_id == a.import_target_project_id,
        account_view(key, a).import_label == a.import_label,
{
}

/// A list of accounts has every account that is configured, each once, under its
/// own key and with its own team.
pub proof fn law_list_of_accounts_is_complete(
    accounts: Map<Seq<char>, LinearAccountModel>,
    views: Seq<LinearAccountViewModel>,
)
    requires
        lists_accounts(accounts, views),
    ensures
        forall|k: Seq<char>| #[trigger]
            accounts.dom().contains(k) <==> exists|i: int|
                0 <= i < views.len() && (#[trigger] views[i]).key == k,
        forall|i: int|
            0 <= i < views.len() ==> (#[trigger] views[i]).team_id
                == accounts[views[i].key].team_id && views[i].workspace_name
                == accounts[views[i].key].workspace_name && (views[i].has_token
                <==> accounts[views[i].key].token is Some),
        forall|i: int, j: int|
            0 <= i < j < views.len() ==> (#[trigger] views[i]).key != (#[trigger] views[j]).key,
{
    assert forall|i: int, j: int| 0 <= i < j < views.len() implies (#[trigger] views[i]).key != (
    #[trigger] views[j]).key by {
        text::lemma_precedes_irreflexive(views[i].key);
    }
}

/// Connecting an account takes a key and a token that are not blank, and nothing
/// else; the key comes first.
pub proof fn law_connecting_needs_key_and_token(c: ConfigModel, body: ConnectLinearAccountBody)
    ensures
        text::trimmed(body.key@).len() == 0 ==> connection(c, body) == Err::<
            (ConfigModel, LinearAccountViewModel),
            ApiErrorModel,
        >(ApiErrorModel::BadRequest("account key must not be empty"@)),
        text::trimmed(body.key@).len() > 0 && text::trimmed(body.token@).len() == 0 ==> connection(
            c,
            body,
        ) == Err::<(ConfigModel, LinearAccountViewModel), ApiErrorModel>(
            ApiErrorModel::BadRequest("token must not be empty"@),
        ),
        text::trimmed(body.key@).len() > 0 && text::trimmed(body.token@).len() > 0 ==> connection(
            c,
            body,
        ) is Ok,
{
}

/// A connected account stands under its key without the white space around it, with
/// the token, the workspace and the team of the request, each under its own name.
/// Where an account of the same team stood there, its map, import target and label
/// stay; else there are none. All other accounts and settings stay, and the answer
/// shows the account as it now is.
pub proof fn law_connected_account_has_what_was_given(
    c: ConfigModel,
    body: ConnectLinearAccountBody,
)
    requires
        connection(c, body) is Ok,
    ensures
        ({
            let key = text::trimmed(body.key@);
            let (next, view) = connection(c, body)->Ok_0;
            let account = next.linear.accounts[key];
            &&& next.linear.accounts.dom().contains(key)
            &&& account.token == Some(body.token@)
            &&& body.workspace_name matches Some(w) ==> account.workspace_name == Some(w@)
            &&& body.workspace_name is None ==> account.workspace_name is None
            &&& body.team_id matches Some(t) ==> account.team_id == Some(t@)
            &&& body.team_id is None ==> account.team_id is None
            &&& view.key == key
            &&& view.has_token
            &&& view.team_id == account.team_id
            &&& view.workspace_name == account.workspace_name
            &&& view.state_map == account.state_map
            &&& view.import_target_project_id == account.import_target_project_id
            &&& view.import_label == account.import_label
        }),
        ({
            let key = text::trimmed(body.key@);
            let (next, _) = connection(c, body)->Ok_0;
            let account = next.linear.accounts[key];
            let was = c.linear.accounts[key];
            let same_team = c.linear.accounts.dom().contains(key) && match body.team_id {
                Some(t) => was.team_id == Some(t@),
                None => was.team_id is None,
            };
            &&& same_team ==> account.state_map == was.state_map
                && account.import_target_project_id == was.import_target_project_id
                && account.import_label == was.import_label
            &&& !same_team ==> account.state_map == Map::<Seq<char>, Seq<char>>::empty()
                && account.import_target_project_id is None && account.import_label is None
        }),
        ({
            let key = text::trimmed(body.key@);
            let (next, _) = connection(c, body)->Ok_0;
            &&& forall|k: Seq<char>|
                k != key ==> (#[trigger] next.linear.accounts.dom().contains(k)
                    <==> c.linear.accounts.dom().contains(k))
            &&& forall|k: Seq<char>|
                k != key && c.linear.accounts.dom().contains(k)
                    ==> #[trigger] next.linear.accounts[k] == c.linear.accounts[k]
            &&& next == (ConfigModel { linear: next.linear, ..c })
        }),
{
}

/// An account that was removed is gone, and all else of the configuration stays.
pub proof fn law_removed_account_is_gone(c: ConfigModel, key: Seq<char>, k: Seq<char>)
    ensures
        ({
            let next = with_accounts(c, c.linear.accounts.remove(key));
            &&& !next.linear.accounts.dom().contains(key)
            &&& k != key ==> (next.linear.accounts.dom().contains(k)
                <==> c.linear.accounts.dom().contains(k))
            &&& k != key && c.linear.accounts.dom().contains(k) ==> next.linear.accounts[k]
                == c.linear.accounts[k]
            &&& next == (ConfigModel { linear: next.linear, ..c })
        }),
{
}

/// An account that was changed stands under its own key as it was changed to, all
/// else of the configuration stays, and the answer shows the changed account.
pub proof fn law_changed_account_is_saved_and_shown(
    c: ConfigModel,
    key: Seq<char>,
    account: LinearAccountModel,
    k: Seq<char>,
)
    ensures
        ({
            let (next, view) = account_change(c, key, account);
            &&& next.linear.accounts.dom().contains(key)
            &&& next.linear.accounts[key] == account
            &&& k != key ==> (next.linear.accounts.dom().contains(k)
                <==> c.linear.accounts.dom().contains(k))
            &&& k != key && c.linear.accounts.dom().contains(k) ==> next.linear.accounts[k]
                == c.linear.accounts[k]
            &&& next == (ConfigModel { linear: next.linear, ..c })
            &&& view.key == key
            &&& view.has_token <==> account.token is Some
            &&& view.workspace_name == account.workspace_name
            &&& view.team_id == account.team_id
            &&& view.state_map == account.state_map
            &&& view.import_target_project_id == account.import_target_project_id
            &&& view.import_label == account.import_label
        }),
{
}

/// Setting an import puts the target and the label on the account, each under its
/// own name, and leaves the rest of it; it is refused where the account is not
/// known, the target is no identifier, or the target is a board that is bound to
/// another account or to none.
pub proof fn law_import_is_set_on_a_bound_board(
    c: ConfigModel,
    b: BoardModel,
    key: Seq<char>,
    target: Option<Seq<char>>,
    label: Option<Seq<char>>,
)
    ensures
        import_setting_change(c, b, key, target, label) is Ok <==> {
            &&& c.linear.accounts.dom().contains(key)
            &&& target matches Some(raw) ==> (parsed_uuid(raw) matches Some(bits)
                && account_key_of(b, Uuid { bits }) == Some(key))
        },
        import_setting_change(c, b, key, target, label) matches Ok(p) ==> {
            let was = c.linear.accounts[key];
            let account = p.0.linear.accounts[key];
            &&& p.0.linear.accounts.dom().contains(key)
            &&& account.import_target_project_id == target
            &&& account.import_label == label
            &&& account.token == was.token
            &&& account.workspace_name == was.workspace_name
            &&& account.team_id == was.team_id
            &&& account.state_map == was.state_map
            &&& p.1.key == key
            &&& p.1.import_target_project_id == target
            &&& p.1.import_label == label
        },
        !c.linear.accounts.dom().contains(key) ==> import_setting_change(c, b, key, target, label)
            == Err::<(ConfigModel, LinearAccountViewModel), ApiErrorModel>(
            ApiErrorModel::BadRequest("unknown Linear account '"@ + key + "'"@),
        ),
        c.linear.accounts.dom().contains(key) ==> (target matches Some(raw) ==> (parsed_uuid(
            raw,
        ) is None ==> import_setting_change(c, b, key, target, label) == Err::<
            (ConfigModel, LinearAccountViewModel),
            ApiErrorModel,
        >(ApiErrorModel::BadRequest("import_target_project_id is not a valid UUID"@)))),
        c.linear.accounts.dom().contains(key) ==> (target matches Some(raw) ==> (parsed_uuid(
            raw,
        ) matches Some(bits) ==> (account_key_of(b, Uuid { bits }) != Some(key)
            ==> import_setting_change(c, b, key, target, label) == Err::<
            (ConfigModel, LinearAccountViewModel),
            ApiErrorModel,
        >(
            ApiErrorModel::BadRequest(
                "import target project must be bound to account '"@ + key
                    + "' (currently bound to "@ + text::shown_option(
                    account_key_of(b, Uuid { bits }),
                ) + ")"@,
            ),
        )))),
{
}

/// That an account is not known is the client's fault, and names the account.
pub proof fn law_unknown_account_is_named(key: Seq<char>)
    ensures
        unknown_account(key) == ApiErrorModel::BadRequest(
            "unknown Linear account '"@ + key + "'"@,
        ),
{
}

/// Workflow states are asked for with the token of the account and of its team;
/// what of the two is missing is told, the token first.
pub proof fn law_states_take_the_accounts_token_and_team(c: ConfigModel, key: Seq<char>)
    ensures
        ({
            let known = c.linear.accounts.dom().contains(key);
            let a = c.linear.accounts[key];
            &&& states_access(c, key) is Ok <==> known && a.token is Some && a.team_id is Some
            &&& states_access(c, key) matches Ok(p) ==> p.0 == authorization(a.token->0)
                && a.team_id == Some(p.1)
            &&& !known ==> states_access(c, key) == Err::<(Seq<char>, Seq<char>), ApiErrorModel>(
                ApiErrorModel::BadRequest("unknown Linear account '"@ + key + "'"@),
            )
            &&& known && a.token is None ==> states_access(c, key) == Err::<
                (Seq<char>, Seq<char>),
                ApiErrorModel,
            >(ApiErrorModel::BadRequest("account '"@ + key + "' has no token"@))
            &&& known && a.token is Some && a.team_id is None ==> states_access(c, key) == Err::<
                (Seq<char>, Seq<char>),
                ApiErrorModel,
            >(ApiErrorModel::BadRequest("account '"@ + key + "' has no team configured"@))
        }),
{
}

/// Clients see of a workflow state its identifier, name, type and position, each
/// under its own name.
pub proof fn law_state_is_seen_by_name(s: WorkflowStateModel)
    ensures
        state_view(s).id == s.id,
        state_view(s).name == s.name,
        state_view(s).state_type == s.state_type,
        state_view(s).position == s.position,
{
}

// ---------------------------------------------------------------------------
// Links
// ---------------------------------------------------------------------------
/// The badge of a linked card names the card, shows the short name and the address
/// that the card carries, and tells whether the card is marked.
pub proof fn law_badge_shows_the_link_of_its_card(row: IssueRowModel)
    requires
        row.linear_issue_identifier is Some,
        row.linear_url is Some,
    ensures
        badge_of(link_of(row)).issue_id == row.id.key(),
        row.linear_issue_identifier == Some(badge_of(link_of(row)).linear_issue_identifier),
        row.linear_url == Some(badge_of(link_of(row)).linear_url),
        badge_of(link_of(row)).linear_sync_pending <==> row.linear_sync_pending,
{
}

/// A link is answered with the identifier, the short name, the address and the state
/// of the issue, each under its own name.
pub proof fn law_link_is_seen_by_name(issue: ResolvedIssueModel)
    ensures
        issue_link(issue).linear_issue_id == issue.id,
        issue_link(issue).linear_issue_identifier == issue.identifier,
        issue_link(issue).linear_url == issue.url,
        issue_link(issue).linear_state_id == issue.state_id,
{
}

/// A card can be linked where an identifier is given, the card is there, and its
/// board is bound to an account that is configured and has a token. The link then
/// goes by that account: its token, its team, and the state that it maps the column
/// of the card to.
pub proof fn law_link_goes_by_the_account_of_the_board(
    b: BoardModel,
    c: ConfigModel,
    id: Uuid,
    identifier: Seq<char>,
)
    ensures
        link_plan(b, c, id, identifier) is Ok <==> {
            &&& text::trimmed(identifier).len() > 0
            &&& b.issue_at(id) matches Some(i)
            &&& account_key_of(b, b.issues[i].project_id) matches Some(key)
            &&& c.linear.accounts.dom().contains(key)
            &&& c.linear.accounts[key].token is Some
        },
        link_plan(b, c, id, identifier) matches Ok(p) ==> {
            &&& p.identifier == text::trimmed(identifier)
            &&& b.issue_at(id) matches Some(i)
            &&& account_key_of(b, b.issues[i].project_id) == Some(p.account_key)
            &&& c.linear.accounts[p.account_key].token == Some(p.token)
            &&& p.expected_team == c.linear.accounts[p.account_key].team_id
            &&& p.mapped_target matches Some(state) ==> c.linear.accounts[p.account_key].state_map
                .dom().contains(b.issues[i].status_id.key())
                && c.linear.accounts[p.account_key].state_map[b.issues[i].status_id.key()] == state
            &&& p.mapped_target is None ==> !c.linear.accounts[p.account_key].state_map.dom()
                .contains(b.issues[i].status_id.key())
        },
{
}

/// Why a card cannot be linked is told, the first that is missing of an identifier,
/// the card, the binding of its board, the account and its token.
pub proof fn law_link_that_cannot_be_is_told_why(
    b: BoardModel,
    c: ConfigModel,
    id: Uuid,
    identifier: Seq<char>,
)
    ensures
        text::trimmed(identifier).len() == 0 ==> link_plan(b, c, id, identifier) == Err::<
            LinkPlanModel,
            ApiErrorModel,
        >(ApiErrorModel::BadRequest("identifier must not be empty"@)),
        text::trimmed(identifier).len() > 0 && b.issue_at(id) is None ==> link_plan(
            b,
            c,
            id,
            identifier,
        ) == Err::<LinkPlanModel, ApiErrorModel>(
            ApiErrorModel::BadRequest("no such card "@ + id.key()),
        ),
        text::trimmed(identifier).len() > 0 ==> (b.issue_at(id) matches Some(i) ==> {
            let key = account_key_of(b, b.issues[i].project_id);
            &&& key is None ==> link_plan(b, c, id, identifier) == Err::<
                LinkPlanModel,
                ApiErrorModel,
            >(
                ApiErrorModel::BadRequest(
                    "this card's board is not bound to a Linear account; bind it first"@,
                ),
            )
            &&& key matches Some(k) ==> (!c.linear.accounts.dom().contains(k) ==> link_plan(
                b,
                c,
                id,
                identifier,
            ) == Err::<LinkPlanModel, ApiErrorModel>(
                ApiErrorModel::BadRequest("board is bound to unknown account '"@ + k + "'"@),
            ))
            &&& key matches Some(k) ==> (c.linear.accounts.dom().contains(k)
                && c.linear.accounts[k].token is None ==> link_plan(b, c, id, identifier) == Err::<
                LinkPlanModel,
                ApiErrorModel,
            >(ApiErrorModel::BadRequest("account '"@ + k + "' has no token"@)))
        }),
{
}

/// A card is linked to the issue that was found, and carries its identifier, short
/// name, address and state, each under its own name. It is marked where its column
/// is mapped to another state than the issue is in, and only there. What else
/// callers see of it stays, and so do all other cards.
pub proof fn law_card_is_linked_to_the_issue_found(
    b: BoardModel,
    id: Uuid,
    plan: LinkPlanModel,
    issue: ResolvedIssueModel,
    i: int,
)
    requires
        b.issue_at(id) == Some(i),
        link_outcome(b, id, plan, issue) is Ok,
    ensures
        ({
            let c = link_outcome(b, id, plan, issue)->Ok_0;
            let row = c.issues[i];
            &&& row.linear_issue_id == Some(issue.id)
            &&& row.linear_issue_identifier == Some(issue.identifier)
            &&& row.linear_url == Some(issue.url)
            &&& row.linear_state_id == issue.state_id
            &&& row.linear_sync_pending <==> (plan.mapped_target matches Some(state)
                && issue.state_id != Some(state))
            &&& row.linear_sync_pending == diverges(plan, issue)
            &&& row.status_id == b.issues[i].status_id
            &&& row.title == b.issues[i].title
            &&& c.issues.len() == b.issues.len()
            &&& forall|j: int|
                0 <= j < b.issues.len() && j != i ==> #[trigger] c.issues[j] == b.issues[j]
            &&& c.projects == b.projects
            &&& c.statuses == b.statuses
        }),
        plan.expected_team matches Some(t) ==> t == issue.team_id,
{
    lemma_first_index(b.issue_ids(), id);
}

/// A card is not linked to an issue of another team than the account's, nor to one
/// that another card mirrors; the answer names the issue. Nothing else stands in the
/// way.
pub proof fn law_link_is_refused_across_teams_and_twice(
    b: BoardModel,
    id: Uuid,
    plan: LinkPlanModel,
    issue: ResolvedIssueModel,
)
    ensures
        plan.expected_team matches Some(t) ==> (t != issue.team_id ==> link_outcome(
            b,
            id,
            plan,
            issue,
        ) == Err::<BoardModel, ApiErrorModel>(
            ApiErrorModel::BadRequest(
                plan.identifier + " belongs to a different Linear team than account '"@
                    + plan.account_key + "'"@,
            ),
        )),
        (plan.expected_team is None || plan.expected_team == Some(issue.team_id)) ==> (b.issue_at(
            id,
        ) matches Some(i) ==> {
            let taken = exists|j: int|
                0 <= j < b.issues.len() && j != i && (#[trigger] b.issues[j]).linear_issue_id
                    == Some(issue.id);
            &&& taken ==> link_outcome(b, id, plan, issue) == Err::<BoardModel, ApiErrorModel>(
                ApiErrorModel::Conflict(plan.identifier + " is already linked to another card"@),
            )
            &&& !taken ==> link_outcome(b, id, plan, issue) is Ok
        }),
{
}

// ---------------------------------------------------------------------------
// Errors and tables
// ---------------------------------------------------------------------------
/// A lack of permission at Linear is forbidden, what is not found there is the
/// client's, and everything else is the gateway's; each is told with what Linear
/// said.
pub proof fn law_errors_of_linear_are_passed_on(m: Seq<char>, e: LinearErrorModel)
    ensures
        api_error(LinearErrorModel::AuthFailed(m)) == ApiErrorModel::Forbidden(
            "Linear auth failed: "@ + m,
        ),
        api_error(LinearErrorModel::NotFound(m)) == ApiErrorModel::BadRequest(
            "not found in Linear: "@ + m,
        ),
        !(e is AuthFailed) && !(e is NotFound) ==> api_error(e) == ApiErrorModel::BadGateway(
            "Linear API error: "@ + e.words(),
        ),
{
}

/// A path stands for the table of its own name, but for members of an organization
/// and for the two kinds of workspaces.
pub proof fn law_paths_stand_for_tables(segment: Seq<char>)
    ensures
        segment == "organization_members"@ ==> table_of(segment)
            == "organization_member_metadata"@,
        segment == "user_workspaces"@ ==> table_of(segment) == "workspaces"@,
        segment == "project_workspaces"@ ==> table_of(segment) == "workspaces"@,
        segment != "organization_members"@ && segment != "user_workspaces"@ && segment
            != "project_workspaces"@ ==> table_of(segment) == segment,
{
    reveal_strlit("organization_members");
    reveal_strlit("user_workspaces");
    reveal_strlit("project_workspaces");
    assert("organization_members"@[0] == 'o');
    assert("user_workspaces"@[0] == 'u');
    assert("project_workspaces"@[0] == 'p');
}

/// An item of a bulk change is about the card or column that its member `id` names;
/// one that names none is refused first, and one that cannot be read is refused with
/// the reason.
pub proof fn law_bulk_item_is_about_what_it_names<T>(item: JsonModel, changes: Result<T, String>)
    ensures
        bulk_item(item, changes) matches Ok(p) ==> {
            &&& item.field("id"@) matches Some(JsonModel::Str(s))
            &&& parsed_uuid(s) == Some(p.0.bits)
            &&& changes == Ok::<T, String>(p.1)
        },
        bulk_item(item, changes) is Ok <==> {
            &&& item.field("id"@) matches Some(JsonModel::Str(s))
            &&& parsed_uuid(s) is Some
            &&& changes is Ok
        },
        !(item.field("id"@) matches Some(JsonModel::Str(s)) && parsed_uuid(s) is Some)
            ==> bulk_item(item, changes) == Err::<(Uuid, T), ApiErrorModel>(
            ApiErrorModel::BadRequest("bulk update item missing valid `id`"@),
        ),
        (item.field("id"@) matches Some(JsonModel::Str(s)) && parsed_uuid(s) is Some) ==> (
        changes matches Err(e) ==> bulk_item(item, changes) == Err::<(Uuid, T), ApiErrorModel>(
            ApiErrorModel::BadRequest("invalid bulk update item: "@ + e@),
        )),
{
}

/// The removal of a column is in conflict with the cards in it, and with nothing
/// else.
pub proof fn law_column_with_cards_is_in_conflict(b: BoardModel, id: Uuid)
    ensures
        ({
            let there = exists|j: int|
                0 <= j < b.statuses.len() && (#[trigger] b.statuses[j]).id == id;
            let used = exists|j: int|
                0 <= j < b.issues.len() && (#[trigger] b.issues[j]).status_id == id;
            &&& there && used ==> status_removal_fault(b, id) == Some(
                ApiErrorModel::Conflict(
                    "cannot delete a column that still has cards; move or delete them first"@,
                ),
            )
            &&& !(there && used) ==> status_removal_fault(b, id) is None
        }),
{
    lemma_first_index(b.status_ids(), id);
    assert forall|j: int| 0 <= j < b.statuses.len() implies b.status_ids()[j] == (
    #[trigger] b.statuses[j]).id by {}
    if let Some(k) = b.status_at(id) {
        assert(b.statuses[k].id == id);
    }
}

/// What is made of a request is made of its outcome or of its refusal, as it came.
pub proof fn law_refusals_are_answered_as_they_came(change: ConfigChange, e: ApiError)
    ensures
        change_of(Ok(change)) == Ok::<(ConfigModel, LinearAccountViewModel), ApiErrorModel>(
            (change.next@, change.view@),
        ),
        change_of(Err(e)) == Err::<(ConfigModel, LinearAccountViewModel), ApiErrorModel>(e@),
        board_answer(Ok(())) is None,
        board_answer(Err(e)) == Some(e@),
{
}

} // verus!
