//! What holds of everything that is asked of Linear and that it answers.
use vstd::prelude::*;

use crate::json::{
    lemma_child_is_field, lemma_descend2, lemma_descend3, lemma_first_child, Json, JsonModel,
};
use crate::linear::client::{
    authorization, classified, error_message, identifier_parts, import_filter, imported_issue,
    imported_issues, imported_list, means_not_found, outcome, parsed_body, resolution,
    resolved_issue, update_succeeded,
};
use crate::linear::error::{LinearError, LinearErrorModel};
use crate::linear::sweep::{
    next_cursor, page_issues, sweep_next, sweep_over, sweep_start, sweep_variables,
    ImportSweepModel, SweepStep,
};
use crate::linear::types::{ImportedIssueModel, ResolvedIssueModel};
use crate::text;

verus! {

// ---------------------------------------------------------------------------
// Credentials
// ---------------------------------------------------------------------------
/// A personal key and a token that names the scheme, in whatever case, are sent as
/// they are but for the white space around them; any other token is sent with the
/// scheme before it.
pub proof fn law_token_gets_a_scheme_where_it_needs_one(token: Seq<char>)
    ensures
        ({
            let t = text::trimmed(token);
            let whole = text::begins(t, "lin_api_"@) || text::begins(text::lower(t), "bearer "@);
            &&& whole ==> authorization(token) == t
            &&& !whole ==> authorization(token) == "Bearer "@ + t
        }),
{
}

/// What is sent for a token names the scheme or is a personal key, so that sending
/// it once more changes nothing.
pub proof fn law_scheme_is_added_once(token: Seq<char>)
    requires
        text::trimmed(token).len() > 0,
    ensures
        authorization(authorization(token)) == authorization(token),
        text::begins(authorization(token), "lin_api_"@) || text::begins(
            text::lower(authorization(token)),
            "bearer "@,
        ),
{
    reveal_strlit("Bearer ");
    reveal_strlit("bearer ");
    let t = text::trimmed(token);
    let a = authorization(token);
    text::law_trimming_takes_white_space_from_the_ends(token);
    if a != t {
        assert(a == "Bearer "@ + t);
        assert(a[0] == 'B');
        assert(a.last() == t.last());
        assert(text::lower(a).take(7) =~= "bearer "@);
    }
    text::lemma_nothing_to_trim(a);
}

// ---------------------------------------------------------------------------
// Answers
// ---------------------------------------------------------------------------
/// A refusal says what the first error in its body says, and is of the kind that
/// its status tells.
pub proof fn law_refusal_says_what_its_body_says(
    status: u16,
    m: JsonModel,
    errors: Seq<JsonModel>,
    message: Seq<char>,
)
    requires
        m.field("errors"@) == Some(JsonModel::Array(errors)),
        errors.len() > 0,
        errors[0].field("message"@) == Some(JsonModel::Str(message)),
    ensures
        status == 401 || status == 403 ==> classified(status, Ok(m)) == Err::<
            JsonModel,
            LinearErrorModel,
        >(LinearErrorModel::AuthFailed(message)),
        500 <= status < 600 ==> classified(status, Ok(m)) == Err::<JsonModel, LinearErrorModel>(
            LinearErrorModel::Http(message),
        ),
        status < 200 || (300 <= status < 500 && status != 401 && status != 403 && status != 429)
            || status >= 600 ==> classified(status, Ok(m)) == Err::<JsonModel, LinearErrorModel>(
            LinearErrorModel::Api(message),
        ),
        status == 429 ==> classified(status, Ok(m)) == Err::<JsonModel, LinearErrorModel>(
            LinearErrorModel::RateLimited,
        ),
{
}

/// A refusal whose body has no message, or is no JSON, says its status.
pub proof fn law_refusal_without_words_says_its_status(
    status: u16,
    body: Result<JsonModel, Seq<char>>,
)
    requires
        body matches Ok(m) ==> (m.field("errors"@) matches Some(e) ==> (e matches JsonModel::Array(
            errors,
        ) ==> (errors.len() > 0 ==> !(errors[0].field("message"@) matches Some(x) && x is Str)))),
    ensures
        status == 401 || status == 403 ==> classified(status, body) == Err::<
            JsonModel,
            LinearErrorModel,
        >(LinearErrorModel::AuthFailed("HTTP "@ + text::decimal(status as nat))),
        500 <= status < 600 ==> classified(status, body) == Err::<JsonModel, LinearErrorModel>(
            LinearErrorModel::Http("HTTP "@ + text::decimal(status as nat)),
        ),
        status < 200 || (300 <= status < 500 && status != 401 && status != 403 && status != 429)
            || status >= 600 ==> classified(status, body) == Err::<JsonModel, LinearErrorModel>(
            LinearErrorModel::Api("HTTP "@ + text::decimal(status as nat)),
        ),
{
}

/// An answer that got through but has an error is of the kind that the type of the
/// first error tells, in whatever case, and says its message; where neither type nor
/// message speak of something that is not there, it was turned down.
pub proof fn law_error_is_told_by_type_and_message(
    status: u16,
    m: JsonModel,
    errors: Seq<JsonModel>,
)
    requires
        200 <= status < 300,
        m.field("errors"@) == Some(JsonModel::Array(errors)),
        errors.len() > 0,
    ensures
        ({
            let first = errors[0];
            let kind = match first.field("extensions"@) {
                Some(x) => match x.field("type"@) {
                    Some(JsonModel::Str(k)) => text::lower(k),
                    _ => Seq::empty(),
                },
                None => Seq::empty(),
            };
            let message = match first.field("message"@) {
                Some(JsonModel::Str(t)) => t,
                _ => "unknown GraphQL error"@,
            };
            let gone = text::occurs(kind, "not found"@) || text::occurs(kind, "invalid input"@)
                || text::occurs(text::lower(message), "entity not found"@) || text::occurs(
                text::lower(message),
                "could not find"@,
            );
            let r = classified(status, Ok(m));
            if kind == "ratelimited"@ {
                r == Err::<JsonModel, LinearErrorModel>(LinearErrorModel::RateLimited)
            } else if kind == "authentication"@ || kind == "authorization"@ {
                r == Err::<JsonModel, LinearErrorModel>(LinearErrorModel::AuthFailed(message))
            } else if gone {
                r == Err::<JsonModel, LinearErrorModel>(LinearErrorModel::NotFound(message))
            } else {
                r == Err::<JsonModel, LinearErrorModel>(LinearErrorModel::Api(message))
            }
        }),
{
    reveal_strlit("");
    reveal_strlit("extensions");
    reveal_strlit("type");
    let first = errors[0];
    lemma_descend2(first, "extensions"@, "type"@);
    lemma_child_is_field(first, "extensions"@);
    if let Some(x) = first.field("extensions"@) {
        lemma_child_is_field(x, "type"@);
    }
    assert(text::lower(""@) =~= Seq::<char>::empty());
}

/// An answer that got through without errors is its data; without data, or where it
/// is no JSON, it is malformed.
pub proof fn law_answer_without_errors_is_its_data(status: u16, body: Result<JsonModel, Seq<char>>)
    requires
        200 <= status < 300,
        body matches Ok(m) ==> (m.field("errors"@) matches Some(e) ==> (e matches JsonModel::Array(
            errors,
        ) ==> errors.len() == 0)),
    ensures
        body matches Err(e) ==> classified(status, body) == Err::<JsonModel, LinearErrorModel>(
            LinearErrorModel::Malformed("2xx body not JSON: "@ + e),
        ),
        body matches Ok(m) ==> match m.field("data"@) {
            Some(data) => if data == JsonModel::Null {
                classified(status, body) == Err::<JsonModel, LinearErrorModel>(
                    LinearErrorModel::Malformed("response had neither data nor errors"@),
                )
            } else {
                classified(status, body) == Ok::<JsonModel, LinearErrorModel>(data)
            },
            None => classified(status, body) == Err::<JsonModel, LinearErrorModel>(
                LinearErrorModel::Malformed("response had neither data nor errors"@),
            ),
        },
{
}

/// An error in words says what kind it is, and ends with its message.
pub proof fn law_errors_say_what_went_wrong(m: Seq<char>)
    ensures
        LinearErrorModel::AuthFailed(m).words() == "Linear authentication failed: "@ + m,
        LinearErrorModel::RateLimited.words() == "Linear rate limited"@,
        LinearErrorModel::NotFound(m).words() == "Linear entity not found: "@ + m,
        LinearErrorModel::Api(m).words() == "Linear API error: "@ + m,
        LinearErrorModel::Http(m).words() == "Linear request failed: "@ + m,
        LinearErrorModel::Malformed(m).words() == "Linear response malformed: "@ + m,
        LinearErrorModel::UnknownAccount(m).words() == "unknown Linear account key: "@ + m,
{
}

/// Too many requests and requests that did not get through may be tried again, and
/// no other error.
pub proof fn law_only_passing_trouble_is_tried_again(e: LinearErrorModel)
    ensures
        e.transient() <==> (match e {
            LinearErrorModel::RateLimited => true,
            LinearErrorModel::Http(_) => true,
            LinearErrorModel::AuthFailed(_) => false,
            LinearErrorModel::NotFound(_) => false,
            LinearErrorModel::Api(_) => false,
            LinearErrorModel::Malformed(_) => false,
            LinearErrorModel::UnknownAccount(_) => false,
        }),
{
}

/// Setting a state succeeded where, and only where, the answer says so outright.
pub proof fn law_update_succeeds_only_where_it_is_said(data: JsonModel)
    ensures
        update_succeeded(data) <==> (data.field("issueUpdate"@) matches Some(u) && u.field(
            "success"@,
        ) == Some(JsonModel::Bool(true))),
{
    reveal_strlit("issueUpdate");
    reveal_strlit("success");
    lemma_descend2(data, "issueUpdate"@, "success"@);
    lemma_child_is_field(data, "issueUpdate"@);
    if let Some(u) = data.field("issueUpdate"@) {
        lemma_child_is_field(u, "success"@);
    }
}

// ---------------------------------------------------------------------------
// Identifiers
// ---------------------------------------------------------------------------
/// A key and a number that an identifier is split into make it up: the key, which is
/// not empty, stands before a dash, and what stands after it is the number.
pub proof fn law_parts_make_up_the_identifier(identifier: Seq<char>)
    requires
        identifier_parts(identifier) is Some,
    ensures
        ({
            let (key, n) = identifier_parts(identifier)->0;
            &&& key.len() > 0
            &&& exists|digits: Seq<char>|
                text::trimmed(identifier) == key + "-"@ + digits && #[trigger] text::parsed_u64(
                    digits,
                ) == Some(n)
        }),
{
    reveal_strlit("-");
    let t = text::trimmed(identifier);
    text::law_last_position_is_the_last(t, '-');
    let i = text::last_position(t, '-')->0;
    assert(t =~= t.take(i) + "-"@ + t.skip(i + 1));
}

// ---------------------------------------------------------------------------
// Issues
// ---------------------------------------------------------------------------
/// An issue is read for an import as the answer has it, each value from the member
/// of its own name; it takes an identifier, a short name, a title and an address,
/// while the state may be missing.
pub proof fn law_imported_issue_is_read_by_name(n: JsonModel)
    ensures
        imported_issue(n) is Ok <==> (n.field("id"@) matches Some(JsonModel::Str(_))) && (n.field(
            "identifier"@,
        ) matches Some(JsonModel::Str(_))) && (n.field("title"@) matches Some(JsonModel::Str(_)))
            && (n.field("url"@) matches Some(JsonModel::Str(_))),
        imported_issue(n) matches Ok(x) ==> {
            &&& n.field("id"@) == Some(JsonModel::Str(x.id))
            &&& n.field("identifier"@) == Some(JsonModel::Str(x.identifier))
            &&& n.field("title"@) == Some(JsonModel::Str(x.title))
            &&& n.field("url"@) == Some(JsonModel::Str(x.url))
            &&& x.state_id matches Some(s) ==> (n.field("state"@) matches Some(st) && st.field(
                "id"@,
            ) == Some(JsonModel::Str(s)))
            &&& x.state_id is None ==> !(n.field("state"@) matches Some(st) && (st.field(
                "id"@,
            ) matches Some(i) && i is Str))
        },
        !(n.field("id"@) matches Some(JsonModel::Str(_))) ==> imported_issue(n) == Err::<
            ImportedIssueModel,
            LinearErrorModel,
        >(LinearErrorModel::Malformed("issue."@ + "id"@ + " missing"@)),
{
    lemma_state_of(n);
}

/// A list of issues is read one for one and in its order; one issue that cannot be
/// read spoils the list, and what is no list is malformed.
pub proof fn law_no_issue_is_dropped_in_reading(nodes: Seq<JsonModel>)
    ensures
        imported_list(JsonModel::Array(nodes)) is Ok <==> forall|k: int|
            0 <= k < nodes.len() ==> imported_issue(#[trigger] nodes[k]) is Ok,
        imported_list(JsonModel::Array(nodes)) matches Ok(xs) ==> xs.len() == nodes.len()
            && forall|k: int|
            0 <= k < nodes.len() ==> imported_issue(#[trigger] nodes[k]) == Ok::<
                ImportedIssueModel,
                LinearErrorModel,
            >(xs[k]),
        forall|j: JsonModel|
            !(j is Array) ==> #[trigger] imported_list(j) == Err::<
                Seq<ImportedIssueModel>,
                LinearErrorModel,
            >(LinearErrorModel::Malformed("issues.nodes not an array"@)),
    decreases nodes.len(),
{
    assert(imported_list(JsonModel::Array(nodes)) == imported_issues(nodes));
    if nodes.len() > 0 {
        let front = nodes.drop_last();
        law_no_issue_is_dropped_in_reading(front);
        assert(imported_list(JsonModel::Array(front)) == imported_issues(front));
        assert forall|k: int| 0 <= k < front.len() implies #[trigger] nodes[k] == front[k] by {}
        assert(nodes[nodes.len() - 1] == nodes.last());
        if imported_issues(nodes) is Ok {
            let xs = imported_issues(nodes)->Ok_0;
            let ys = imported_issues(front)->Ok_0;
            assert forall|k: int| 0 <= k < nodes.len() implies imported_issue(#[trigger] nodes[k])
                == Ok::<ImportedIssueModel, LinearErrorModel>(xs[k]) by {
                if k < front.len() {
                    assert(imported_issue(front[k]) == Ok::<ImportedIssueModel, LinearErrorModel>(
                        ys[k],
                    ));
                }
            }
        } else if forall|k: int|
            0 <= k < nodes.len() ==> imported_issue(#[trigger] nodes[k]) is Ok {
            assert forall|k: int| 0 <= k < front.len() implies imported_issue(
                #[trigger] front[k],
            ) is Ok by {
                assert(imported_issue(nodes[k]) is Ok);
            }
        }
    }
}

/// An issue is read for linking as the answer has it, each value from the member of
/// its own name; it takes an identifier, a short name, an address and a team, while
/// the state may be missing.
pub proof fn law_resolved_issue_is_read_by_name(n: JsonModel)
    ensures
        resolved_issue(n) is Ok <==> (n.field("id"@) matches Some(JsonModel::Str(_))) && (n.field(
            "identifier"@,
        ) matches Some(JsonModel::Str(_))) && (n.field("url"@) matches Some(JsonModel::Str(_)))
            && (n.field("team"@) matches Some(t) && (t.field("id"@) matches Some(
            JsonModel::Str(_),
        ))),
        resolved_issue(n) matches Ok(x) ==> {
            &&& n.field("id"@) == Some(JsonModel::Str(x.id))
            &&& n.field("identifier"@) == Some(JsonModel::Str(x.identifier))
            &&& n.field("url"@) == Some(JsonModel::Str(x.url))
            &&& n.field("team"@) matches Some(t)
            &&& t.field("id"@) == Some(JsonModel::Str(x.team_id))
            &&& x.state_id matches Some(s) ==> (n.field("state"@) matches Some(st) && st.field(
                "id"@,
            ) == Some(JsonModel::Str(s)))
            &&& x.state_id is None ==> !(n.field("state"@) matches Some(st) && (st.field(
                "id"@,
            ) matches Some(i) && i is Str))
        },
{
    reveal_strlit("team");
    reveal_strlit("id");
    lemma_state_of(n);
    lemma_descend2(n, "team"@, "id"@);
    lemma_child_is_field(n, "team"@);
    if let Some(t) = n.field("team"@) {
        lemma_child_is_field(t, "id"@);
    }
}

/// The state of an issue is a member of a member.
proof fn lemma_state_of(n: JsonModel)
    ensures
        n.descend(seq!["state"@, "id"@]) == match n.field("state"@) {
            Some(st) => st.field("id"@),
            None => None,
        },
{
    reveal_strlit("state");
    reveal_strlit("id");
    lemma_descend2(n, "state"@, "id"@);
    lemma_child_is_field(n, "state"@);
    if let Some(st) = n.field("state"@) {
        lemma_child_is_field(st, "id"@);
    }
}

/// An identifier is resolved to the first issue of the answer; where there is none,
/// what was asked for is not found, and the error names the identifier.
pub proof fn law_identifier_resolves_to_the_first_issue(
    identifier: Seq<char>,
    data: JsonModel,
    issues: JsonModel,
    nodes: Seq<JsonModel>,
)
    requires
        data.field("issues"@) == Some(issues),
        issues.field("nodes"@) == Some(JsonModel::Array(nodes)),
    ensures
        nodes.len() == 0 || nodes[0] == JsonModel::Null ==> resolution(identifier, data) == Err::<
            ResolvedIssueModel,
            LinearErrorModel,
        >(LinearErrorModel::NotFound(identifier)),
        nodes.len() > 0 && nodes[0] != JsonModel::Null ==> resolution(identifier, data)
            == resolved_issue(nodes[0]),
{
    reveal_strlit("issues");
    reveal_strlit("nodes");
    lemma_descend3(data, "issues"@, "nodes"@, "0"@);
    lemma_child_is_field(data, "issues"@);
    lemma_child_is_field(issues, "nodes"@);
    lemma_first_child(nodes);
}

// ---------------------------------------------------------------------------
// Imports
// ---------------------------------------------------------------------------
/// An import asks for the issues that are of the team, are neither completed nor
/// cancelled, changed after the point in time, and are assigned to the owner of the
/// token; where a label is given, for those too that carry it. All of that is asked
/// for at once, and nothing else.
pub proof fn law_import_asks_for_open_issues_of_the_team(
    team_id: Seq<char>,
    label: Option<Seq<char>>,
    updated_after: Seq<char>,
)
    ensures
        ({
            let f = import_filter(team_id, label, updated_after);
            &&& f matches JsonModel::Object(top)
            &&& top.len() == 1
            &&& f.field("and"@) matches Some(JsonModel::Array(all))
            &&& all.len() == 4
            &&& all[0].field("team"@) matches Some(team)
            &&& team.field("id"@) matches Some(id)
            &&& id.field("eq"@) == Some(JsonModel::Str(team_id))
            &&& all[1].field("state"@) matches Some(state)
            &&& state.field("type"@) matches Some(kind)
            &&& kind.field("nin"@) matches Some(JsonModel::Array(ended))
            &&& ended.len() == 2
            &&& ended[0] == JsonModel::Str("completed"@)
            &&& ended[1] == JsonModel::Str("canceled"@)
            &&& all[2].field("updatedAt"@) matches Some(when)
            &&& when.field("gt"@) == Some(JsonModel::Str(updated_after))
        }),
        ({
            let who = import_filter(team_id, label, updated_after).field("and"@)->0->Array_0[3];
            match label {
                None => {
                    &&& who.field("assignee"@) matches Some(a)
                    &&& a.field("isMe"@) matches Some(me)
                    &&& me.field("eq"@) == Some(JsonModel::Bool(true))
                },
                Some(l) => {
                    &&& who.field("or"@) matches Some(JsonModel::Array(either))
                    &&& either.len() == 2
                    &&& either[0].field("assignee"@) matches Some(a)
                    &&& a.field("isMe"@) matches Some(me)
                    &&& me.field("eq"@) == Some(JsonModel::Bool(true))
                    &&& either[1].field("labels"@) matches Some(labels)
                    &&& labels.field("some"@) matches Some(one)
                    &&& one.field("name"@) matches Some(name)
                    &&& name.field("eq"@) == Some(JsonModel::Str(l))
                },
            }
        }),
{
}

/// A walk starts before its first page, with nothing read, and with the filter of
/// the import.
pub proof fn law_walk_starts_with_nothing(
    team_id: Seq<char>,
    label: Option<Seq<char>>,
    updated_after: Seq<char>,
)
    ensures
        ({
            let s = sweep_start(team_id, label, updated_after);
            &&& s.pages == 0
            &&& s.issues.len() == 0
            &&& s.after is None
            &&& s.filter == import_filter(team_id, label, updated_after)
        }),
{
}

/// A page is asked for with the filter of the walk, fifty issues at a time, from
/// where the last page ended; the first page from the start.
pub proof fn law_page_is_asked_for_from_where_the_last_ended(s: ImportSweepModel)
    ensures
        sweep_variables(s).field("filter"@) == Some(s.filter),
        sweep_variables(s).field("first"@) == Some(JsonModel::Number(text::decimal(50))),
        s.after matches Some(c) ==> sweep_variables(s).field("after"@) == Some(JsonModel::Str(c)),
        s.after is None ==> sweep_variables(s).field("after"@) == Some(JsonModel::Null),
{
    reveal_strlit("filter");
    reveal_strlit("first");
    reveal_strlit("after");
    let entries = sweep_variables(s)->Object_0;
    assert("filter"@[1] == 'i' && "first"@.len() == 5 && "after"@[0] == 'a' && "filter"@.len() == 6
        && "first"@[0] == 'f');
    crate::json::lemma_lookup_at(entries, "filter"@, 0);
    crate::json::lemma_lookup_at(entries, "first"@, 1);
    crate::json::lemma_lookup_at(entries, "after"@, 2);
}

/// Another page follows where, and only where, the answer says so and says where it
/// starts.
pub proof fn law_next_page_starts_where_this_one_ends(
    data: JsonModel,
    issues: JsonModel,
    info: JsonModel,
)
    requires
        data.field("issues"@) == Some(issues),
        issues.field("pageInfo"@) == Some(info),
    ensures
        next_cursor(data) matches Some(c) <==> info.field("hasNextPage"@) == Some(
            JsonModel::Bool(true),
        ) && (info.field("endCursor"@) matches Some(JsonModel::Str(_))),
        next_cursor(data) matches Some(c) ==> info.field("endCursor"@) == Some(JsonModel::Str(c)),
{
    reveal_strlit("issues");
    reveal_strlit("pageInfo");
    reveal_strlit("hasNextPage");
    reveal_strlit("endCursor");
    lemma_descend3(data, "issues"@, "pageInfo"@, "hasNextPage"@);
    lemma_descend3(data, "issues"@, "pageInfo"@, "endCursor"@);
    lemma_child_is_field(data, "issues"@);
    lemma_child_is_field(issues, "pageInfo"@);
    lemma_child_is_field(info, "hasNextPage"@);
    lemma_child_is_field(info, "endCursor"@);
}

/// The issues of a page are those that the answer lists, one for one.
pub proof fn law_page_has_the_listed_issues(
    data: JsonModel,
    issues: JsonModel,
    nodes: Seq<JsonModel>,
)
    requires
        data.field("issues"@) == Some(issues),
        issues.field("nodes"@) == Some(JsonModel::Array(nodes)),
    ensures
        page_issues(data) is Ok <==> forall|k: int|
            0 <= k < nodes.len() ==> imported_issue(#[trigger] nodes[k]) is Ok,
        page_issues(data) matches Ok(xs) ==> xs.len() == nodes.len() && forall|k: int|
            0 <= k < nodes.len() ==> imported_issue(#[trigger] nodes[k]) == Ok::<
                ImportedIssueModel,
                LinearErrorModel,
            >(xs[k]),
{
    reveal_strlit("issues");
    reveal_strlit("nodes");
    lemma_descend2(data, "issues"@, "nodes"@);
    lemma_child_is_field(data, "issues"@);
    lemma_child_is_field(issues, "nodes"@);
    law_no_issue_is_dropped_in_reading(nodes);
}

/// A page adds its issues after those of the pages before it. The walk is complete
/// where no page follows, goes on from where the next one starts where one does, and
/// is capped at forty pages.
pub proof fn law_walk_goes_on_until_complete_or_capped(s: ImportSweepModel, data: JsonModel)
    ensures
        sweep_next(s, data) is Ok <==> page_issues(data) is Ok,
        page_issues(data) matches Err(e) ==> sweep_next(s, data) == Err::<
            (ImportSweepModel, SweepStep),
            LinearErrorModel,
        >(e),
        sweep_next(s, data) matches Ok(t) ==> {
            &&& t.0.issues == s.issues + page_issues(data)->Ok_0
            &&& t.0.pages == s.pages + 1
            &&& t.0.filter == s.filter
            &&& t.1 == SweepStep::Complete <==> next_cursor(data) is None
            &&& t.1 == SweepStep::Capped <==> next_cursor(data) is Some && s.pages + 1 >= 40
            &&& t.1 == SweepStep::NextPage <==> next_cursor(data) is Some && s.pages + 1 < 40
            &&& next_cursor(data) matches Some(c) ==> t.0.after == Some(c)
        },
{
}

/// The message of an answer is that of its first error, where it has one and that
/// has a message.
pub proof fn law_message_is_that_of_the_first_error(body: Result<JsonModel, Seq<char>>)
    ensures
        error_message(body) matches Some(t) ==> {
            &&& body matches Ok(m)
            &&& m.field("errors"@) matches Some(JsonModel::Array(errors))
            &&& errors.len() > 0
            &&& errors[0].field("message"@) == Some(JsonModel::Str(t))
        },
        error_message(body) is None ==> !(body matches Ok(m) && m.field("errors"@) matches Some(
            JsonModel::Array(errors),
        ) && errors.len() > 0 && (errors[0].field("message"@) matches Some(x) && x is Str)),
{
}

/// Only a type or a message that says so means that something is not there.
pub proof fn law_not_found_is_said_in_words(kind: Seq<char>, msg: Seq<char>)
    ensures
        means_not_found(kind, msg) <==> text::occurs(kind, "not found"@) || text::occurs(
            kind,
            "invalid input"@,
        ) || text::occurs(text::lower(msg), "entity not found"@) || text::occurs(
            text::lower(msg),
            "could not find"@,
        ),
{
}

/// What is made of an answer is made of its data or of its error, as it came.
pub proof fn law_answers_are_taken_as_they_came(
    j: Json,
    e: LinearError,
    parsed: Json,
    fault: String,
)
    ensures
        outcome(Ok(j)) == Ok::<JsonModel, LinearErrorModel>(j@),
        outcome(Err(e)) == Err::<JsonModel, LinearErrorModel>(e@),
        parsed_body(Ok(parsed)) == Ok::<JsonModel, Seq<char>>(parsed@),
        parsed_body(Err(fault)) == Err::<JsonModel, Seq<char>>(fault@),
{
}

/// An issue that lacks what it takes is malformed, and the error names the first that
/// is missing: the identifier, the short name, then for an import the title and the
/// address, for a link the address and the team.
pub proof fn law_missing_values_are_named(n: JsonModel)
    ensures
        ({
            let id = n.field("id"@) matches Some(JsonModel::Str(_));
            let identifier = n.field("identifier"@) matches Some(JsonModel::Str(_));
            let title = n.field("title"@) matches Some(JsonModel::Str(_));
            let url = n.field("url"@) matches Some(JsonModel::Str(_));
            let missing = |name: Seq<char>|
                LinearErrorModel::Malformed("issue."@ + name + " missing"@);
            &&& !id ==> imported_issue(n) == Err::<ImportedIssueModel, LinearErrorModel>(
                missing("id"@),
            ) && resolved_issue(n) == Err::<ResolvedIssueModel, LinearErrorModel>(missing("id"@))
            &&& id && !identifier ==> imported_issue(n) == Err::<
                ImportedIssueModel,
                LinearErrorModel,
            >(missing("identifier"@)) && resolved_issue(n) == Err::<
                ResolvedIssueModel,
                LinearErrorModel,
            >(missing("identifier"@))
            &&& id && identifier && !title ==> imported_issue(n) == Err::<
                ImportedIssueModel,
                LinearErrorModel,
            >(missing("title"@))
            &&& id && identifier && title && !url ==> imported_issue(n) == Err::<
                ImportedIssueModel,
                LinearErrorModel,
            >(missing("url"@))
            &&& id && identifier && !url ==> resolved_issue(n) == Err::<
                ResolvedIssueModel,
                LinearErrorModel,
            >(missing("url"@))
            &&& id && identifier && url ==> (resolved_issue(n) matches Err(e) ==> e
                == LinearErrorModel::Malformed("issue.team.id missing"@))
        }),
{
}

/// An answer without a list of issues is malformed as a page, and an identifier is
/// not found in it.
pub proof fn law_answer_without_issues_is_malformed(data: JsonModel, identifier: Seq<char>)
    requires
        data.field("issues"@) matches Some(issues) ==> issues.field("nodes"@) is None,
    ensures
        page_issues(data) == Err::<Seq<ImportedIssueModel>, LinearErrorModel>(
            LinearErrorModel::Malformed("missing issues.nodes"@),
        ),
        resolution(identifier, data) == Err::<ResolvedIssueModel, LinearErrorModel>(
            LinearErrorModel::NotFound(identifier),
        ),
{
    reveal_strlit("issues");
    reveal_strlit("nodes");
    lemma_descend2(data, "issues"@, "nodes"@);
    lemma_descend3(data, "issues"@, "nodes"@, "0"@);
    lemma_child_is_field(data, "issues"@);
    if let Some(issues) = data.field("issues"@) {
        lemma_child_is_field(issues, "nodes"@);
    }
}

/// A walk over answers ends with the first error, and else with all issues of all
/// pages up to the one that no page follows; it is not over where answers are lacking.
pub proof fn law_walk_ends_with_the_first_error_or_the_last_page(
    s: ImportSweepModel,
    data: JsonModel,
    e: LinearErrorModel,
    rest: Seq<Result<JsonModel, LinearErrorModel>>,
)
    ensures
        sweep_over(s, Seq::empty()) is None,
        sweep_over(s, seq![Err::<JsonModel, LinearErrorModel>(e)] + rest) == Some(
            Err::<Seq<ImportedIssueModel>, LinearErrorModel>(e),
        ),
        page_issues(data) matches Err(f) ==> sweep_over(
            s,
            seq![Ok::<JsonModel, LinearErrorModel>(data)] + rest,
        ) == Some(Err::<Seq<ImportedIssueModel>, LinearErrorModel>(f)),
        page_issues(data) matches Ok(xs) ==> (next_cursor(data) is None || s.pages + 1 >= 40
            ==> sweep_over(s, seq![Ok::<JsonModel, LinearErrorModel>(data)] + rest) == Some(
            Ok::<Seq<ImportedIssueModel>, LinearErrorModel>(s.issues + xs),
        )),
        page_issues(data) matches Ok(xs) ==> (next_cursor(data) matches Some(c) ==> (s.pages + 1
            < 40 ==> sweep_over(s, seq![Ok::<JsonModel, LinearErrorModel>(data)] + rest)
            == sweep_over(
            ImportSweepModel {
                filter: s.filter,
                after: Some(c),
                pages: s.pages + 1,
                issues: s.issues + xs,
            },
            rest,
        ))),
{
    let one = seq![Ok::<JsonModel, LinearErrorModel>(data)] + rest;
    assert(one.skip(1) =~= rest);
    assert(one[0] == Ok::<JsonModel, LinearErrorModel>(data));
    let bad = seq![Err::<JsonModel, LinearErrorModel>(e)] + rest;
    assert(bad[0] == Err::<JsonModel, LinearErrorModel>(e));
}

} // verus!
