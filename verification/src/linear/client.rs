//! Requests to the Linear API, and what its answers mean.
use vstd::prelude::*;

use crate::json::{
    json_parse, models_of, parse_json, text_in, Json, JsonModel,
};
use crate::linear::error::{LinearError, LinearErrorModel};
use crate::linear::types::{
    ImportedIssue, ImportedIssueModel, ResolvedIssue, ResolvedIssueModel, WorkflowState,
};
use crate::text;

verus! {

// ---------------------------------------------------------------------------
// Credentials
// ---------------------------------------------------------------------------
/// The value of the `Authorization` header for a token: a personal key and a
/// token that names its scheme go as they are, any other token gets the scheme.
pub open spec fn authorization(token: Seq<char>) -> Seq<char> {
    let t = text::trimmed(token);
    if text::begins(t, "lin_api_"@) || text::begins(text::lower(t), "bearer "@) {
        t
    } else {
        "Bearer "@ + t
    }
}

/// Formats the `Authorization` header for a token.
pub fn authorization_header(token: &str) -> (r: String)
    ensures
        r@ == authorization(token@),
{
    let t = text::trim(token);
    let lower = text::to_lower(t);
    if text::starts_with(t, "lin_api_") || text::starts_with(lower.as_str(), "bearer ") {
        t.to_owned()
    } else {
        text::join("Bearer ", t)
    }
}

/// The credentials of one Linear account.
#[derive(Debug, PartialEq, Eq)]
pub struct LinearClient {
    pub auth_header: String,
}

impl View for LinearClient {
    type V = Seq<char>;

    open spec fn view(&self) -> Seq<char> {
        self.auth_header@
    }
}

impl Clone for LinearClient {
    fn clone(&self) -> (r: LinearClient)
        ensures
            r@ == self@,
    {
        LinearClient { auth_header: self.auth_header.clone() }
    }
}

// ---------------------------------------------------------------------------
// Answers
// ---------------------------------------------------------------------------
/// The elements of a list that is there.
pub open spec fn list_in(m: Option<JsonModel>) -> Option<Seq<JsonModel>> {
    match m {
        Some(j) => j.items(),
        None => None,
    }
}

/// The first error of an answer.
pub open spec fn first_error(m: JsonModel) -> Option<JsonModel> {
    match list_in(m.field("errors"@)) {
        Some(errors) => if errors.len() > 0 {
            Some(errors[0])
        } else {
            None
        },
        None => None,
    }
}

/// The message of the first error of an answer, which may not be JSON at all.
pub open spec fn error_message(body: Result<JsonModel, Seq<char>>) -> Option<Seq<char>> {
    match body {
        Ok(m) => match first_error(m) {
            Some(e) => text_in(e.field("message"@)),
            None => None,
        },
        Err(_) => None,
    }
}

/// The message of the first error of an answer, or else its HTTP status.
pub open spec fn message_or_status(status: u16, body: Result<JsonModel, Seq<char>>) -> Seq<char> {
    match error_message(body) {
        Some(m) => m,
        None => "HTTP "@ + text::decimal(status as nat),
    }
}

/// Whether an error says that what was asked for does not exist.
pub open spec fn means_not_found(kind: Seq<char>, msg: Seq<char>) -> bool {
    let m = text::lower(msg);
    ||| text::occurs(kind, "not found"@)
    ||| text::occurs(kind, "invalid input"@)
    ||| text::occurs(m, "entity not found"@)
    ||| text::occurs(m, "could not find"@)
}

/// What an error of a GraphQL answer means.
pub open spec fn graphql_error(first: JsonModel) -> LinearErrorModel {
    let kind = match text_in(first.descend(seq!["extensions"@, "type"@])) {
        Some(k) => text::lower(k),
        None => text::lower(""@),
    };
    let msg = match text_in(first.field("message"@)) {
        Some(m) => m,
        None => "unknown GraphQL error"@,
    };
    if kind == "ratelimited"@ {
        LinearErrorModel::RateLimited
    } else if kind == "authentication"@ || kind == "authorization"@ {
        LinearErrorModel::AuthFailed(msg)
    } else if means_not_found(kind, msg) {
        LinearErrorModel::NotFound(msg)
    } else {
        LinearErrorModel::Api(msg)
    }
}

/// What an answer means: its data or an error.
///
/// Too many requests, a lack of permission and a fault of the server are known by
/// the status alone; only the body of an answer that succeeds has to be JSON. A
/// list of errors that is not empty comes before the data.
pub open spec fn classified(status: u16, body: Result<JsonModel, Seq<char>>) -> Result<
    JsonModel,
    LinearErrorModel,
> {
    if status == 429 {
        Err(LinearErrorModel::RateLimited)
    } else if status == 401 || status == 403 {
        Err(LinearErrorModel::AuthFailed(message_or_status(status, body)))
    } else if 500 <= status < 600 {
        Err(LinearErrorModel::Http(message_or_status(status, body)))
    } else if !(200 <= status < 300) {
        Err(LinearErrorModel::Api(message_or_status(status, body)))
    } else {
        match body {
            Err(e) => Err(LinearErrorModel::Malformed("2xx body not JSON: "@ + e)),
            Ok(m) => match first_error(m) {
                Some(first) => Err(graphql_error(first)),
                None => match m.field("data"@) {
                    Some(data) => if data is Null {
                        Err(
                            LinearErrorModel::Malformed(
                                "response had neither data nor errors"@,
                            ),
                        )
                    } else {
                        Ok(data)
                    },
                    None => Err(
                        LinearErrorModel::Malformed("response had neither data nor errors"@),
                    ),
                },
            },
        }
    }
}

/// What a result of the library means.
pub open spec fn outcome(r: Result<Json, LinearError>) -> Result<JsonModel, LinearErrorModel> {
    match r {
        Ok(j) => Ok(j@),
        Err(e) => Err(e@),
    }
}

/// What a parsed text is.
pub open spec fn parsed_body(r: Result<Json, String>) -> Result<JsonModel, Seq<char>> {
    match r {
        Ok(j) => Ok(j@),
        Err(e) => Err(e@),
    }
}

/// Whether an error says that what was asked for does not exist.
pub fn is_not_found(kind: &str, msg: &str) -> (r: bool)
    ensures
        r == means_not_found(kind@, msg@),
{
    let m = text::to_lower(msg);
    text::contains(kind, "not found") || text::contains(kind, "invalid input") || text::contains(
        m.as_str(),
        "entity not found",
    ) || text::contains(m.as_str(), "could not find")
}

/// Finds the first error of an answer.
fn find_first_error(m: &Json) -> (r: Option<&Json>)
    ensures
        match r {
            Some(e) => first_error(m@) == Some(e@),
            None => first_error(m@) is None,
        },
{
    match m.get("errors") {
        Some(list) => match list.as_array() {
            Some(errors) => if errors.len() > 0 {
                assert(models_of(errors@)[0] == errors@[0]@);
                Some(&errors[0])
            } else {
                None
            },
            None => None,
        },
        None => None,
    }
}

/// The message of the first error of an answer.
fn find_error_message(parsed: &Result<Json, String>) -> (r: Option<String>)
    ensures
        text::opt_text(r) == error_message(parsed_body(*parsed)),
{
    match parsed {
        Ok(m) => match find_first_error(m) {
            Some(e) => text::own_option(e.get_text("message")),
            None => None,
        },
        Err(_) => None,
    }
}

/// The message of the first error in a body, which may not be JSON at all.
pub fn json_error_message(body: &str) -> (r: Option<String>)
    ensures
        text::opt_text(r) == error_message(json_parse(body@)),
{
    let parsed = parse_json(body);
    find_error_message(&parsed)
}

fn describe(status: u16, parsed: &Result<Json, String>) -> (r: String)
    ensures
        r@ == message_or_status(status, parsed_body(*parsed)),
{
    match find_error_message(parsed) {
        Some(m) => m,
        None => {
            let digits = text::decimal_of(status as u64);
            text::join("HTTP ", digits.as_str())
        },
    }
}

/// What an error of a GraphQL answer means.
fn classify_error(first: &Json) -> (r: LinearError)
    ensures
        r@ == graphql_error(first@),
{
    let kind = match first.text_at2("extensions", "type") {
        Some(k) => text::to_lower(k),
        None => text::to_lower(""),
    };
    let msg = match first.get_text("message") {
        Some(m) => m.to_owned(),
        None => "unknown GraphQL error".to_owned(),
    };
    if text::same(kind.as_str(), "ratelimited") {
        LinearError::RateLimited
    } else if text::same(kind.as_str(), "authentication") || text::same(
        kind.as_str(),
        "authorization",
    ) {
        LinearError::AuthFailed(msg)
    } else if is_not_found(kind.as_str(), msg.as_str()) {
        LinearError::NotFound(msg)
    } else {
        LinearError::Api(msg)
    }
}

/// What an answer with a parsed body means: its data or an error.
pub fn classify_parsed(status: u16, parsed: Result<Json, String>) -> (r: Result<Json, LinearError>)
    ensures
        outcome(r) == classified(status, parsed_body(parsed)),
{
    if status == 429 {
        return Err(LinearError::RateLimited);
    }
    if status == 401 || status == 403 {
        return Err(LinearError::AuthFailed(describe(status, &parsed)));
    }
    if 500 <= status && status < 600 {
        return Err(LinearError::Http(describe(status, &parsed)));
    }
    if !(200 <= status && status < 300) {
        return Err(LinearError::Api(describe(status, &parsed)));
    }
    match parsed {
        Err(e) => Err(LinearError::Malformed(text::join("2xx body not JSON: ", e.as_str()))),
        Ok(m) => {
            if let Some(first) = find_first_error(&m) {
                return Err(classify_error(first));
            }
            match m.get("data") {
                Some(data) => if data.is_null() {
                    Err(LinearError::Malformed("response had neither data nor errors".to_owned()))
                } else {
                    Ok(data.copy())
                },
                None => Err(
                    LinearError::Malformed("response had neither data nor errors".to_owned()),
                ),
            }
        },
    }
}

/// What an answer means: its data or an error.
pub fn classify(status: u16, body: &str) -> (r: Result<Json, LinearError>)
    ensures
        outcome(r) == classified(status, json_parse(body@)),
{
    let parsed = parse_json(body);
    classify_parsed(status, parsed)
}

/// Too many requests and faults of the server are tried again, whatever the body
/// is and whether it is JSON at all.
pub proof fn law_transient_statuses_are_retried(status: u16, body: Result<JsonModel, Seq<char>>)
    requires
        status == 429 || 500 <= status < 600,
    ensures
        classified(status, body) matches Err(e) && e.transient(),
{
}

/// A lack of permission and other refusals are not tried again, whatever the body
/// is.
pub proof fn law_refusals_are_final(status: u16, body: Result<JsonModel, Seq<char>>)
    requires
        !(200 <= status < 300),
        status != 429,
        !(500 <= status < 600),
    ensures
        classified(status, body) matches Err(e) && !e.transient(),
{
}

/// An answer that succeeds is data that is not `null`, and comes without errors.
pub proof fn law_data_comes_without_errors(status: u16, body: Result<JsonModel, Seq<char>>)
    requires
        classified(status, body) is Ok,
    ensures
        200 <= status < 300,
        body matches Ok(m) && first_error(m) is None && m.field("data"@) == Some(
            classified(status, body)->Ok_0,
        ) && !(classified(status, body)->Ok_0 is Null),
{
}

// ---------------------------------------------------------------------------
// Identifiers
// ---------------------------------------------------------------------------
/// The team key and the number that an identifier such as `OOM-123` is made of.
pub open spec fn identifier_parts(identifier: Seq<char>) -> Option<(Seq<char>, u64)> {
    let t = text::trimmed(identifier);
    match text::last_position(t, '-') {
        Some(i) => if i == 0 {
            None
        } else {
            match text::parsed_u64(t.skip(i + 1)) {
                Some(n) => Some((t.take(i), n)),
                None => None,
            }
        },
        None => None,
    }
}

/// Splits an identifier such as `OOM-123` into the team key and the number.
pub fn split_identifier(identifier: &str) -> (r: Option<(&str, u64)>)
    ensures
        match r {
            Some(p) => identifier_parts(identifier@) == Some((p.0@, p.1)),
            None => identifier_parts(identifier@) is None,
        },
{
    let t = text::trim(identifier);
    let v = text::chars_of(t);
    let size: usize = v.len();
    let i: usize = match text::rfind(v.as_slice(), '-') {
        Some(i) => i,
        None => return None,
    };
    if i == 0 {
        return None;
    }
    let number = t.substring_char(i + 1, size);
    assert(number@ == t@.skip(i + 1));
    let key = t.substring_char(0, i);
    assert(key@ == t@.take(i as int));
    match text::parse_u64(number) {
        Some(n) => Some((key, n)),
        None => None,
    }
}

/// An identifier that is made of a team key and a number is split into them.
pub proof fn law_identifier_round_trip(key: Seq<char>, n: u64)
    requires
        key.len() > 0,
        !text::is_white(key[0]),
    ensures
        identifier_parts(key + "-"@ + text::decimal(n as nat)) == Some((key, n)),
{
    reveal_strlit("-");
    let digits = text::decimal(n as nat);
    let t = key + "-"@ + digits;
    text::lemma_decimal(n as nat);
    text::law_decimal_round_trip(n);
    assert(text::is_digit(digits[digits.len() - 1]));
    assert(t.last() == digits.last());
    text::lemma_nothing_to_trim(t);
    assert("-"@ =~= seq!['-']);
    assert(t =~= key.push('-') + digits);
    assert forall|i: int| 0 <= i < digits.len() implies #[trigger] digits[i] != '-' by {
        assert(text::is_digit(digits[i]));
    }
    text::lemma_last_position_before(key, '-', digits);
    assert(t.skip(key.len() as int + 1) =~= digits);
    assert(t.take(key.len() as int) =~= key);
}

// ---------------------------------------------------------------------------
// Issues
// ---------------------------------------------------------------------------
/// A scalar that an issue must have.
pub open spec fn required(issue: JsonModel, name: Seq<char>) -> Result<
    Seq<char>,
    LinearErrorModel,
> {
    match text_in(issue.field(name)) {
        Some(v) => Ok(v),
        None => Err(LinearErrorModel::Malformed("issue."@ + name + " missing"@)),
    }
}

/// An issue as an import needs it; the first scalar that is missing is the error.
pub open spec fn imported_issue(n: JsonModel) -> Result<ImportedIssueModel, LinearErrorModel> {
    match required(n, "id"@) {
        Err(e) => Err(e),
        Ok(id) => match required(n, "identifier"@) {
            Err(e) => Err(e),
            Ok(identifier) => match required(n, "title"@) {
                Err(e) => Err(e),
                Ok(title) => match required(n, "url"@) {
                    Err(e) => Err(e),
                    Ok(url) => Ok(
                        ImportedIssueModel {
                            id,
                            identifier,
                            title,
                            url,
                            state_id: text_in(n.descend(seq!["state"@, "id"@])),
                        },
                    ),
                },
            },
        },
    }
}

/// Issues as an import needs them: all of them, or the first error.
pub open spec fn imported_issues(nodes: Seq<JsonModel>) -> Result<
    Seq<ImportedIssueModel>,
    LinearErrorModel,
>
    decreases nodes.len(),
{
    if nodes.len() == 0 {
        Ok(Seq::empty())
    } else {
        match imported_issues(nodes.drop_last()) {
            Err(e) => Err(e),
            Ok(front) => match imported_issue(nodes.last()) {
                Err(e) => Err(e),
                Ok(x) => Ok(front.push(x)),
            },
        }
    }
}

/// The issues of a list that an answer should hold.
pub open spec fn imported_list(nodes: JsonModel) -> Result<
    Seq<ImportedIssueModel>,
    LinearErrorModel,
> {
    match nodes.items() {
        Some(items) => imported_issues(items),
        None => Err(LinearErrorModel::Malformed("issues.nodes not an array"@)),
    }
}

/// An issue as linking a card needs it.
pub open spec fn resolved_issue(issue: JsonModel) -> Result<ResolvedIssueModel, LinearErrorModel> {
    match required(issue, "id"@) {
        Err(e) => Err(e),
        Ok(id) => match required(issue, "identifier"@) {
            Err(e) => Err(e),
            Ok(identifier) => match required(issue, "url"@) {
                Err(e) => Err(e),
                Ok(url) => match text_in(issue.descend(seq!["team"@, "id"@])) {
                    None => Err(LinearErrorModel::Malformed("issue.team.id missing"@)),
                    Some(team_id) => Ok(
                        ResolvedIssueModel {
                            id,
                            identifier,
                            url,
                            state_id: text_in(issue.descend(seq!["state"@, "id"@])),
                            team_id,
                        },
                    ),
                },
            },
        },
    }
}

/// An error among the first issues is the error of all.
proof fn lemma_error_stays(nodes: Seq<JsonModel>, k: int)
    requires
        0 <= k <= nodes.len(),
        imported_issues(nodes.take(k)) is Err,
    ensures
        imported_issues(nodes) == imported_issues(nodes.take(k)),
    decreases nodes.len() - k,
{
    if k == nodes.len() {
        assert(nodes.take(k) =~= nodes);
    } else {
        assert(nodes.take(k + 1).drop_last() =~= nodes.take(k));
        lemma_error_stays(nodes, k + 1);
    }
}

/// A scalar that an issue must have.
fn require(issue: &Json, name: &str) -> (r: Result<String, LinearError>)
    ensures
        match r {
            Ok(v) => required(issue@, name@) matches Ok(w) && w == v@,
            Err(e) => required(issue@, name@) matches Err(f) && f == e@,
        },
{
    match issue.get_text(name) {
        Some(v) => Ok(v.to_owned()),
        None => Err(LinearError::Malformed(text::join3("issue.", name, " missing"))),
    }
}

/// Reads an issue as an import needs it.
fn parse_imported_issue(n: &Json) -> (r: Result<ImportedIssue, LinearError>)
    ensures
        match r {
            Ok(x) => imported_issue(n@) matches Ok(y) && y == x@,
            Err(e) => imported_issue(n@) matches Err(f) && f == e@,
        },
{
    let id = match require(n, "id") {
        Ok(v) => v,
        Err(e) => return Err(e),
    };
    let identifier = match require(n, "identifier") {
        Ok(v) => v,
        Err(e) => return Err(e),
    };
    let title = match require(n, "title") {
        Ok(v) => v,
        Err(e) => return Err(e),
    };
    let url = match require(n, "url") {
        Ok(v) => v,
        Err(e) => return Err(e),
    };
    let state_id = text::own_option(n.text_at2("state", "id"));
    Ok(ImportedIssue { id, identifier, title, url, state_id })
}

/// Reads the issues of an import. One that lacks a scalar is an error: it is not
/// dropped in silence.
pub fn parse_imported_issues(nodes: &Json) -> (r: Result<Vec<ImportedIssue>, LinearError>)
    ensures
        match r {
            Ok(v) => imported_list(nodes@) matches Ok(w) && w == v@.map_values(
                |x: ImportedIssue| x@,
            ),
            Err(e) => imported_list(nodes@) matches Err(f) && f == e@,
        },
{
    let items = match nodes.as_array() {
        Some(items) => items,
        None => return Err(LinearError::Malformed("issues.nodes not an array".to_owned())),
    };
    let ghost all = models_of(items@);
    let mut out: Vec<ImportedIssue> = Vec::new();
    let mut k: usize = 0;
    proof {
        assert(all.take(0) =~= Seq::<JsonModel>::empty());
        assert(out@.map_values(|x: ImportedIssue| x@) =~= Seq::<ImportedIssueModel>::empty());
    }
    while k < items.len()
        invariant
            k <= items@.len(),
            nodes@ == JsonModel::Array(all),
            all == models_of(items@),
            imported_issues(all.take(k as int)) matches Ok(w) && w == out@.map_values(
                |x: ImportedIssue| x@,
            ),
        decreases items@.len() - k,
    {
        proof {
            assert(all.take(k + 1).drop_last() =~= all.take(k as int));
            assert(all.take(k + 1).last() == items@[k as int]@);
        }
        let ghost given = out@.map_values(|x: ImportedIssue| x@);
        match parse_imported_issue(&items[k]) {
            Ok(x) => {
                out.push(x);
                assert(out@.map_values(|x: ImportedIssue| x@) =~= given.push(x@));
            },
            Err(e) => {
                proof {
                    lemma_error_stays(all, k + 1);
                }
                return Err(e);
            },
        }
        k += 1;
    }
    assert(all.take(all.len() as int) =~= all);
    Ok(out)
}

/// Reads an issue as linking a card needs it.
pub fn parse_resolved_issue(issue: &Json) -> (r: Result<ResolvedIssue, LinearError>)
    ensures
        match r {
            Ok(x) => resolved_issue(issue@) matches Ok(y) && y == x@,
            Err(e) => resolved_issue(issue@) matches Err(f) && f == e@,
        },
{
    let id = match require(issue, "id") {
        Ok(v) => v,
        Err(e) => return Err(e),
    };
    let identifier = match require(issue, "identifier") {
        Ok(v) => v,
        Err(e) => return Err(e),
    };
    let url = match require(issue, "url") {
        Ok(v) => v,
        Err(e) => return Err(e),
    };
    let state_id = text::own_option(issue.text_at2("state", "id"));
    let team_id = match issue.text_at2("team", "id") {
        Some(t) => t.to_owned(),
        None => return Err(LinearError::Malformed("issue.team.id missing".to_owned())),
    };
    Ok(ResolvedIssue { id, identifier, url, state_id, team_id })
}

// ---------------------------------------------------------------------------
// Requests
// ---------------------------------------------------------------------------
/// A GraphQL request: its text, and the values of its variables.
#[derive(Debug, PartialEq, Eq)]
pub struct GraphQlRequest {
    pub query: &'static str,
    pub variables: Json,
}

/// What a [`GraphQlRequest`] asks.
#[verifier::ext_equal]
pub struct GraphQlRequestModel {
    pub query: Seq<char>,
    pub variables: JsonModel,
}

impl View for GraphQlRequest {
    type V = GraphQlRequestModel;

    open spec fn view(&self) -> GraphQlRequestModel {
        GraphQlRequestModel { query: self.query@, variables: self.variables@ }
    }
}

impl GraphQlRequest {
    /// The body that is sent.
    pub fn payload(&self) -> (r: Json)
        ensures
            r@ == JsonModel::Object(
                seq![
                    ("query"@, JsonModel::Str(self@.query)),
                    ("variables"@, self@.variables),
                ],
            ),
    {
        let r = Json::object1("query", Json::string(self.query)).with(
            "variables",
            self.variables.copy(),
        );
        assert(r@->Object_0 =~= seq![
            ("query"@, JsonModel::Str(self@.query)),
            ("variables"@, self@.variables),
        ]);
        r
    }
}

/// An object with one member.
pub open spec fn object(key: Seq<char>, value: JsonModel) -> JsonModel {
    JsonModel::Object(seq![(key, value)])
}

/// The filter of an import: issues of a team in a state that is not terminal,
/// that changed after a point in time and are assigned to the owner of the token
/// or, where a label is given, carry it.
pub open spec fn import_filter(
    team_id: Seq<char>,
    label: Option<Seq<char>>,
    updated_after: Seq<char>,
) -> JsonModel {
    let eq = |v: JsonModel| object("eq"@, v);
    let assigned = object("assignee"@, object("isMe"@, eq(JsonModel::Bool(true))));
    let who = match label {
        Some(l) => object(
            "or"@,
            JsonModel::Array(
                seq![
                    assigned,
                    object(
                        "labels"@,
                        object("some"@, object("name"@, eq(JsonModel::Str(l)))),
                    ),
                ],
            ),
        ),
        None => assigned,
    };
    object(
        "and"@,
        JsonModel::Array(
            seq![
                object("team"@, object("id"@, eq(JsonModel::Str(team_id)))),
                object(
                    "state"@,
                    object(
                        "type"@,
                        object(
                            "nin"@,
                            JsonModel::Array(
                                seq![
                                    JsonModel::Str("completed"@),
                                    JsonModel::Str("canceled"@),
                                ],
                            ),
                        ),
                    ),
                ),
                object("updatedAt"@, object("gt"@, JsonModel::Str(updated_after))),
                who,
            ],
        ),
    )
}

/// Builds the filter of an import.
pub fn build_import_filter(team_id: &str, label: Option<&str>, updated_after: &str) -> (r: Json)
    ensures
        r@ == import_filter(team_id@, text::opt_str(label), updated_after@),
{
    let assigned = Json::object1(
        "assignee",
        Json::object1("isMe", Json::object1("eq", Json::Bool(true))),
    );
    let who = match label {
        Some(l) => {
            let named = Json::object1("name", Json::object1("eq", Json::string(l)));
            let labelled = Json::object1("labels", Json::object1("some", named));
            let ghost pair = seq![assigned@, labelled@];
            let either = Json::array1(assigned).and(labelled);
            assert(either@->Array_0 =~= pair);
            Json::object1("or", either)
        },
        None => assigned,
    };
    let team = Json::object1(
        "team",
        Json::object1("id", Json::object1("eq", Json::string(team_id))),
    );
    let terminal = Json::array1(Json::string("completed")).and(Json::string("canceled"));
    assert(terminal@->Array_0 =~= seq![
        JsonModel::Str("completed"@),
        JsonModel::Str("canceled"@),
    ]);
    let state = Json::object1("state", Json::object1("type", Json::object1("nin", terminal)));
    let window = Json::object1("updatedAt", Json::object1("gt", Json::string(updated_after)));
    let ghost clauses = seq![team@, state@, window@, who@];
    let all = Json::array1(team).and(state).and(window).and(who);
    assert(all@->Array_0 =~= clauses);
    Json::object1("and", all)
}

/// The text of the request that sets the state of an issue.
pub open spec fn update_query() -> Seq<char> {
    "mutation($id:String!,$stateId:String!){ issueUpdate(id:$id, input:{stateId:$stateId}){ success } }"@
}

/// The text of the request for the workflow states of a team.
pub open spec fn states_query() -> Seq<char> {
    "query($teamId:ID!){ workflowStates(filter:{ team:{ id:{ eq:$teamId } } }){ nodes { id name type position } } }"@
}

/// The text of the request for an issue by team key and number.
pub open spec fn resolve_query() -> Seq<char> {
    "query($key:String!,$number:Float!){ issues(filter:{ team:{ key:{ eq:$key } }, number:{ eq:$number } }){ nodes { id identifier url state { id } team { id } } } }"@
}

/// The text of the request for a page of an import.
pub open spec fn import_query() -> Seq<char> {
    "query($filter:IssueFilter!,$first:Int!,$after:String){ issues(filter:$filter, first:$first, after:$after, orderBy:updatedAt){ nodes { id identifier title url state { id } } pageInfo { hasNextPage endCursor } } }"@
}

/// The request that sets a state names the issue by the variable `id` and the new
/// state by the variable `stateId`, not the other way round, and asks whether it
/// succeeded.
pub proof fn law_update_names_issue_and_state()
    ensures
        text::begins(update_query(), "mutation($id:String!,$stateId:String!){"@),
        text::occurs(update_query(), "issueUpdate(id:$id, input:{stateId:$stateId})"@),
        text::occurs(update_query(), "{ success }"@),
{
    reveal_strlit(
        "mutation($id:String!,$stateId:String!){ issueUpdate(id:$id, input:{stateId:$stateId}){ success } }",
    );
    reveal_strlit("mutation($id:String!,$stateId:String!){");
    reveal_strlit("issueUpdate(id:$id, input:{stateId:$stateId})");
    reveal_strlit("{ success }");
    let q = update_query();
    let head = "mutation($id:String!,$stateId:String!){"@;
    assert(q.take(head.len() as int) =~= head);
    text::lemma_occurs_at(q, "issueUpdate(id:$id, input:{stateId:$stateId})"@, 40);
    text::lemma_occurs_at(q, "{ success }"@, 85);
}

/// The request for workflow states asks for those of one team, which the variable
/// `teamId` names, with all that is known of a state.
pub proof fn law_states_are_asked_of_one_team()
    ensures
        text::begins(states_query(), "query($teamId:ID!){"@),
        text::occurs(states_query(), "workflowStates("@),
        text::occurs(states_query(), "filter:{ team:{ id:{ eq:$teamId } } }"@),
        text::occurs(states_query(), "nodes { id name type position }"@),
{
    reveal_strlit(
        "query($teamId:ID!){ workflowStates(filter:{ team:{ id:{ eq:$teamId } } }){ nodes { id name type position } } }",
    );
    reveal_strlit("query($teamId:ID!){");
    reveal_strlit("workflowStates(");
    reveal_strlit("filter:{ team:{ id:{ eq:$teamId } } }");
    reveal_strlit("nodes { id name type position }");
    let q = states_query();
    let head = "query($teamId:ID!){"@;
    assert(q.take(head.len() as int) =~= head);
    text::lemma_occurs_at(q, "workflowStates("@, 20);
    text::lemma_occurs_at(q, "filter:{ team:{ id:{ eq:$teamId } } }"@, 35);
    text::lemma_occurs_at(q, "nodes { id name type position }"@, 75);
}

/// The request for an issue picks it by the key of its team and by its number, and
/// asks for all that linking a card needs.
pub proof fn law_issue_is_asked_for_by_key_and_number()
    ensures
        text::begins(resolve_query(), "query($key:String!,$number:Float!){"@),
        text::occurs(
            resolve_query(),
            "filter:{ team:{ key:{ eq:$key } }, number:{ eq:$number } }"@,
        ),
        text::occurs(
            resolve_query(),
            "nodes { id identifier url state { id } team { id } }"@,
        ),
{
    reveal_strlit(
        "query($key:String!,$number:Float!){ issues(filter:{ team:{ key:{ eq:$key } }, number:{ eq:$number } }){ nodes { id identifier url state { id } team { id } } } }",
    );
    reveal_strlit("query($key:String!,$number:Float!){");
    reveal_strlit("filter:{ team:{ key:{ eq:$key } }, number:{ eq:$number } }");
    reveal_strlit("nodes { id identifier url state { id } team { id } }");
    let q = resolve_query();
    let head = "query($key:String!,$number:Float!){"@;
    assert(q.take(head.len() as int) =~= head);
    text::lemma_occurs_at(
        q,
        "filter:{ team:{ key:{ eq:$key } }, number:{ eq:$number } }"@,
        43,
    );
    text::lemma_occurs_at(q, "nodes { id identifier url state { id } team { id } }"@, 104);
}

/// The request for a page of an import hands the filter, the size of the page and
/// where it starts to Linear, newest changes first, and asks for all that a card
/// needs and for where the next page starts.
pub proof fn law_page_is_asked_for_by_filter_and_cursor()
    ensures
        text::begins(import_query(), "query($filter:IssueFilter!,$first:Int!,$after:String){"@),
        text::occurs(
            import_query(),
            "issues(filter:$filter, first:$first, after:$after, orderBy:updatedAt)"@,
        ),
        text::occurs(import_query(), "nodes { id identifier title url state { id } }"@),
        text::occurs(import_query(), "pageInfo { hasNextPage endCursor }"@),
{
    reveal_strlit(
        "query($filter:IssueFilter!,$first:Int!,$after:String){ issues(filter:$filter, first:$first, after:$after, orderBy:updatedAt){ nodes { id identifier title url state { id } } pageInfo { hasNextPage endCursor } } }",
    );
    reveal_strlit("query($filter:IssueFilter!,$first:Int!,$after:String){");
    reveal_strlit("issues(filter:$filter, first:$first, after:$after, orderBy:updatedAt)");
    reveal_strlit("nodes { id identifier title url state { id } }");
    reveal_strlit("pageInfo { hasNextPage endCursor }");
    let q = import_query();
    let head = "query($filter:IssueFilter!,$first:Int!,$after:String){"@;
    assert(q.take(head.len() as int) =~= head);
    text::lemma_occurs_at(
        q,
        "issues(filter:$filter, first:$first, after:$after, orderBy:updatedAt)"@,
        55,
    );
    text::lemma_occurs_at(q, "nodes { id identifier title url state { id } }"@, 126);
    text::lemma_occurs_at(q, "pageInfo { hasNextPage endCursor }"@, 173);
}

/// Whether setting the state of an issue succeeded, by the data of the answer.
pub open spec fn update_succeeded(data: JsonModel) -> bool {
    match data.descend(seq!["issueUpdate"@, "success"@]) {
        Some(j) => j.flag() == Some(true),
        None => false,
    }
}

/// The first issue of the data of an answer.
pub open spec fn first_node(data: JsonModel) -> Option<JsonModel> {
    match data.descend(seq!["issues"@, "nodes"@, "0"@]) {
        Some(j) => if j is Null {
            None
        } else {
            Some(j)
        },
        None => None,
    }
}

/// The issue that the data of an answer resolves an identifier to.
pub open spec fn resolution(identifier: Seq<char>, data: JsonModel) -> Result<
    ResolvedIssueModel,
    LinearErrorModel,
> {
    match first_node(data) {
        Some(issue) => resolved_issue(issue),
        None => Err(LinearErrorModel::NotFound(identifier)),
    }
}

impl LinearClient {
    /// The credentials that a token gives.
    pub fn new(token: &str) -> (r: LinearClient)
        ensures
            r@ == authorization(token@),
    {
        LinearClient { auth_header: authorization_header(token) }
    }

    /// The request that sets the state of an issue.
    pub fn update_issue_state_request(issue_id: &str, state_id: &str) -> (r: GraphQlRequest)
        ensures
            r@.query == update_query(),
            r@.query == "mutation($id:String!,$stateId:String!){ issueUpdate(id:$id, input:{stateId:$stateId}){ success } }"@,
            text::occurs(r@.query, "issueUpdate(id:$id, input:{stateId:$stateId})"@),
            r@.variables == JsonModel::Object(
                seq![
                    ("id"@, JsonModel::Str(issue_id@)),
                    ("stateId"@, JsonModel::Str(state_id@)),
                ],
            ),
    {
        let variables = Json::object1("id", Json::string(issue_id)).with(
            "stateId",
            Json::string(state_id),
        );
        assert(variables@->Object_0 =~= seq![
            ("id"@, JsonModel::Str(issue_id@)),
            ("stateId"@, JsonModel::Str(state_id@)),
        ]);
        proof {
            law_update_names_issue_and_state();
        }
        GraphQlRequest {
            query: "mutation($id:String!,$stateId:String!){ issueUpdate(id:$id, input:{stateId:$stateId}){ success } }",
            variables,
        }
    }

    /// Whether the state of an issue was set, by the answer.
    pub fn update_issue_state(issue_id: &str, answer: Result<Json, LinearError>) -> (r: Result<
        (),
        LinearError,
    >)
        ensures
            match outcome(answer) {
                Err(e) => r matches Err(f) && f@ == e,
                Ok(data) => if update_succeeded(data) {
                    r is Ok
                } else {
                    r matches Err(f) && f@ == LinearErrorModel::Api(
                        "issueUpdate(id="@ + issue_id@ + ") returned success=false"@,
                    )
                },
            },
    {
        let data = match answer {
            Ok(data) => data,
            Err(e) => return Err(e),
        };
        let success = match data.at2("issueUpdate", "success") {
            Some(j) => match j.as_bool() {
                Some(b) => b,
                None => false,
            },
            None => false,
        };
        if success {
            Ok(())
        } else {
            Err(
                LinearError::Api(
                    text::join3("issueUpdate(id=", issue_id, ") returned success=false"),
                ),
            )
        }
    }

    /// The request for the workflow states of a team.
    pub fn list_workflow_states_request(team_id: &str) -> (r: GraphQlRequest)
        ensures
            r@.query == states_query(),
            r@.query == "query($teamId:ID!){ workflowStates(filter:{ team:{ id:{ eq:$teamId } } }){ nodes { id name type position } } }"@,
            text::occurs(r@.query, "filter:{ team:{ id:{ eq:$teamId } } }"@),
            r@.variables == object("teamId"@, JsonModel::Str(team_id@)),
    {
        proof {
            law_states_are_asked_of_one_team();
        }
        GraphQlRequest {
            query: "query($teamId:ID!){ workflowStates(filter:{ team:{ id:{ eq:$teamId } } }){ nodes { id name type position } } }",
            variables: Json::object1("teamId", Json::string(team_id)),
        }
    }

    /// The list of workflow states in an answer.
    pub fn workflow_state_nodes(answer: Result<Json, LinearError>) -> (r: Result<Json, LinearError>)
        ensures
            match outcome(answer) {
                Err(e) => r matches Err(f) && f@ == e,
                Ok(data) => match data.descend(seq!["workflowStates"@, "nodes"@]) {
                    Some(nodes) => r matches Ok(j) && j@ == nodes,
                    None => r matches Err(f) && f@ == LinearErrorModel::Malformed(
                        "missing workflowStates.nodes"@,
                    ),
                },
            },
    {
        let data = match answer {
            Ok(data) => data,
            Err(e) => return Err(e),
        };
        match data.at2("workflowStates", "nodes") {
            Some(nodes) => Ok(nodes.copy()),
            None => Err(LinearError::Malformed("missing workflowStates.nodes".to_owned())),
        }
    }

    /// The workflow states of a team, given how the list of them was read.
    pub fn list_workflow_states(read: Result<Vec<WorkflowState>, String>) -> (r: Result<
        Vec<WorkflowState>,
        LinearError,
    >)
        ensures
            match read {
                Ok(v) => r matches Ok(w) && w == v,
                Err(e) => r matches Err(f) && f@ == LinearErrorModel::Malformed(
                    "workflowStates.nodes: "@ + e@,
                ),
            },
    {
        match read {
            Ok(v) => Ok(v),
            Err(e) => Err(
                LinearError::Malformed(text::join("workflowStates.nodes: ", e.as_str())),
            ),
        }
    }

    /// The request for an issue by its identifier; an identifier that is none is
    /// answered at once.
    pub fn resolve_issue_request(identifier: &str) -> (r: Result<GraphQlRequest, LinearError>)
        ensures
            match identifier_parts(identifier@) {
                Some(p) => r matches Ok(q) && q@.query == resolve_query() && q@.query
                    == "query($key:String!,$number:Float!){ issues(filter:{ team:{ key:{ eq:$key } }, number:{ eq:$number } }){ nodes { id identifier url state { id } team { id } } } }"@
                    && text::occurs(
                    q@.query,
                    "filter:{ team:{ key:{ eq:$key } }, number:{ eq:$number } }"@,
                ) && q@.variables
                    == JsonModel::Object(
                    seq![
                        ("key"@, JsonModel::Str(p.0)),
                        ("number"@, JsonModel::Number(text::decimal(p.1 as nat))),
                    ],
                ),
                None => r matches Err(f) && f@ == LinearErrorModel::NotFound(identifier@),
            },
    {
        let (key, number) = match split_identifier(identifier) {
            Some(p) => p,
            None => return Err(LinearError::NotFound(identifier.to_owned())),
        };
        let variables = Json::object1("key", Json::string(key)).with(
            "number",
            Json::unsigned(number),
        );
        assert(variables@->Object_0 =~= seq![
            ("key"@, JsonModel::Str(key@)),
            ("number"@, JsonModel::Number(text::decimal(number as nat))),
        ]);
        proof {
            law_issue_is_asked_for_by_key_and_number();
        }
        Ok(
            GraphQlRequest {
                query: "query($key:String!,$number:Float!){ issues(filter:{ team:{ key:{ eq:$key } }, number:{ eq:$number } }){ nodes { id identifier url state { id } team { id } } } }",
                variables,
            },
        )
    }

    /// The issue that an identifier was resolved to, by the answer.
    pub fn resolve_issue_by_identifier(
        identifier: &str,
        answer: Result<Json, LinearError>,
    ) -> (r: Result<ResolvedIssue, LinearError>)
        ensures
            match outcome(answer) {
                Err(e) => r matches Err(f) && f@ == e,
                Ok(data) => match resolution(identifier@, data) {
                    Ok(x) => r matches Ok(y) && y@ == x,
                    Err(e) => r matches Err(f) && f@ == e,
                },
            },
    {
        let data = match answer {
            Ok(data) => data,
            Err(e) => return Err(e),
        };
        match data.at3("issues", "nodes", "0") {
            Some(issue) => if issue.is_null() {
                Err(LinearError::NotFound(identifier.to_owned()))
            } else {
                parse_resolved_issue(issue)
            },
            None => Err(LinearError::NotFound(identifier.to_owned())),
        }
    }
}

} // verus!
