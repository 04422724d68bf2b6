//! The walk over the pages of an import.
use vstd::prelude::*;

use crate::json::{text_in, Json, JsonModel};
use crate::linear::client::{
    build_import_filter, import_filter, import_query, imported_list,
    law_page_is_asked_for_by_filter_and_cursor, outcome, parse_imported_issues, GraphQlRequest,
};
use crate::linear::error::{LinearError, LinearErrorModel};
use crate::linear::types::{ImportedIssue, ImportedIssueModel};
use crate::text;

verus! {

/// How many issues a page holds.
pub const IMPORT_PAGE_SIZE: u32 = 50;

/// How many pages are walked at most.
pub const IMPORT_MAX_PAGES: u32 = 40;

/// A walk over the pages of an import: the filter, where the next page starts,
/// how many pages were read, and the issues on them.
#[derive(Debug)]
pub struct ImportSweep {
    filter: Json,
    after: Option<String>,
    pages: u32,
    issues: Vec<ImportedIssue>,
}

/// What an [`ImportSweep`] has come to.
#[verifier::ext_equal]
pub struct ImportSweepModel {
    pub filter: JsonModel,
    pub after: Option<Seq<char>>,
    pub pages: int,
    pub issues: Seq<ImportedIssueModel>,
}

impl View for ImportSweep {
    type V = ImportSweepModel;

    closed spec fn view(&self) -> ImportSweepModel {
        ImportSweepModel {
            filter: self.filter@,
            after: text::opt_text(self.after),
            pages: self.pages as int,
            issues: self.issues@.map_values(|x: ImportedIssue| x@),
        }
    }
}

/// What is next in a walk over pages.
#[derive(Clone, Copy, Debug, PartialEq, Eq, Structural)]
pub enum SweepStep {
    /// Another page has to be read.
    NextPage,
    /// That was the last page.
    Complete,
    /// There are more pages than are walked; the oldest issues are left out.
    Capped,
}

/// Where the page after this one starts, where there is one.
pub open spec fn next_cursor(data: JsonModel) -> Option<Seq<char>> {
    let more = match data.descend(seq!["issues"@, "pageInfo"@, "hasNextPage"@]) {
        Some(j) => j.flag() == Some(true),
        None => false,
    };
    if more {
        text_in(data.descend(seq!["issues"@, "pageInfo"@, "endCursor"@]))
    } else {
        None
    }
}

/// The issues of a page.
pub open spec fn page_issues(data: JsonModel) -> Result<
    Seq<ImportedIssueModel>,
    LinearErrorModel,
> {
    match data.descend(seq!["issues"@, "nodes"@]) {
        Some(nodes) => imported_list(nodes),
        None => Err(LinearErrorModel::Malformed("missing issues.nodes"@)),
    }
}

/// A walk before its first page.
pub open spec fn sweep_start(
    team_id: Seq<char>,
    label: Option<Seq<char>>,
    updated_after: Seq<char>,
) -> ImportSweepModel {
    ImportSweepModel {
        filter: import_filter(team_id, label, updated_after),
        after: None,
        pages: 0,
        issues: Seq::empty(),
    }
}

/// A walk after one page more, and what is next.
pub open spec fn sweep_next(s: ImportSweepModel, data: JsonModel) -> Result<
    (ImportSweepModel, SweepStep),
    LinearErrorModel,
> {
    match page_issues(data) {
        Err(e) => Err(e),
        Ok(issues) => {
            let cursor = next_cursor(data);
            let t = ImportSweepModel {
                filter: s.filter,
                after: match cursor {
                    Some(c) => Some(c),
                    None => s.after,
                },
                pages: s.pages + 1,
                issues: s.issues + issues,
            };
            let step = if cursor is None {
                SweepStep::Complete
            } else if t.pages >= IMPORT_MAX_PAGES {
                SweepStep::Capped
            } else {
                SweepStep::NextPage
            };
            Ok((t, step))
        },
    }
}

/// The variables of the request for the next page.
pub open spec fn sweep_variables(s: ImportSweepModel) -> JsonModel {
    JsonModel::Object(
        seq![
            ("filter"@, s.filter),
            ("first"@, JsonModel::Number(text::decimal(IMPORT_PAGE_SIZE as nat))),
            (
                "after"@,
                match s.after {
                    Some(c) => JsonModel::Str(c),
                    None => JsonModel::Null,
                },
            ),
        ],
    )
}

impl ImportSweep {
    /// A walk over the issues of a team that changed after a point in time and are
    /// assigned to the owner of the token or carry a label.
    pub fn new(team_id: &str, label: Option<&str>, updated_after: &str) -> (r: ImportSweep)
        ensures
            r@ == sweep_start(team_id@, text::opt_str(label), updated_after@),
    {
        let r = ImportSweep {
            filter: build_import_filter(team_id, label, updated_after),
            after: None,
            pages: 0,
            issues: Vec::new(),
        };
        assert(r@.issues =~= Seq::<ImportedIssueModel>::empty());
        r
    }

    /// The request for the next page.
    pub fn request(&self) -> (r: GraphQlRequest)
        ensures
            r@.query == import_query(),
            r@.query == "query($filter:IssueFilter!,$first:Int!,$after:String){ issues(filter:$filter, first:$first, after:$after, orderBy:updatedAt){ nodes { id identifier title url state { id } } pageInfo { hasNextPage endCursor } } }"@,
            text::occurs(
                r@.query,
                "issues(filter:$filter, first:$first, after:$after, orderBy:updatedAt)"@,
            ),
            r@.variables == sweep_variables(self@),
    {
        let after = match &self.after {
            Some(c) => Json::string(c.as_str()),
            None => Json::Null,
        };
        let variables = Json::object1("filter", self.filter.copy()).with(
            "first",
            Json::unsigned(IMPORT_PAGE_SIZE as u64),
        ).with("after", after);
        assert(variables@->Object_0 =~= sweep_variables(self@)->Object_0);
        proof {
            law_page_is_asked_for_by_filter_and_cursor();
        }
        GraphQlRequest {
            query: "query($filter:IssueFilter!,$first:Int!,$after:String){ issues(filter:$filter, first:$first, after:$after, orderBy:updatedAt){ nodes { id identifier title url state { id } } pageInfo { hasNextPage endCursor } } }",
            variables,
        }
    }

    /// Takes the answer to the request for a page; says what is next. An error
    /// ends the walk without a result.
    pub fn take_page(&mut self, answer: Result<Json, LinearError>) -> (r: Result<
        SweepStep,
        LinearError,
    >)
        requires
            old(self)@.pages < IMPORT_MAX_PAGES,
        ensures
            match outcome(answer) {
                Err(e) => r matches Err(f) && f@ == e && final(self)@ == old(self)@,
                Ok(data) => match sweep_next(old(self)@, data) {
                    Ok(t) => r matches Ok(step) && final(self)@ == t.0 && step == t.1,
                    Err(e) => r matches Err(f) && f@ == e && final(self)@ == old(self)@,
                },
            },
    {
        let data = match answer {
            Ok(data) => data,
            Err(e) => return Err(e),
        };
        let nodes = match data.at2("issues", "nodes") {
            Some(nodes) => nodes,
            None => return Err(LinearError::Malformed("missing issues.nodes".to_owned())),
        };
        let mut page = match parse_imported_issues(nodes) {
            Ok(page) => page,
            Err(e) => return Err(e),
        };
        let more = match data.at3("issues", "pageInfo", "hasNextPage") {
            Some(j) => match j.as_bool() {
                Some(b) => b,
                None => false,
            },
            None => false,
        };
        let cursor = match data.at3("issues", "pageInfo", "endCursor") {
            Some(j) => if more {
                text::own_option(j.as_str())
            } else {
                None
            },
            None => None,
        };
        let ghost before = self@;
        let ghost added = page@.map_values(|x: ImportedIssue| x@);
        self.issues.append(&mut page);
        self.pages = self.pages + 1;
        assert(self.issues@.map_values(|x: ImportedIssue| x@) =~= before.issues + added);
        match cursor {
            Some(c) => {
                self.after = Some(c);
                if self.pages >= IMPORT_MAX_PAGES {
                    Ok(SweepStep::Capped)
                } else {
                    Ok(SweepStep::NextPage)
                }
            },
            None => Ok(SweepStep::Complete),
        }
    }

    /// The issues on the pages that were read.
    pub fn into_issues(self) -> (r: Vec<ImportedIssue>)
        ensures
            r@.map_values(|x: ImportedIssue| x@) == self@.issues,
    {
        self.issues
    }
}

/// The walk over answers: the issues of all pages up to the last or to the cap,
/// or the first error. `None` where the answers end before the walk does.
pub open spec fn sweep_over(
    s: ImportSweepModel,
    answers: Seq<Result<JsonModel, LinearErrorModel>>,
) -> Option<Result<Seq<ImportedIssueModel>, LinearErrorModel>>
    decreases answers.len(),
{
    if answers.len() == 0 {
        None
    } else {
        match answers[0] {
            Err(e) => Some(Err(e)),
            Ok(data) => match sweep_next(s, data) {
                Err(e) => Some(Err(e)),
                Ok(t) => if t.1 == SweepStep::NextPage {
                    sweep_over(t.0, answers.skip(1))
                } else {
                    Some(Ok(t.0.issues))
                },
            },
        }
    }
}

/// A walk ends after as many pages as are walked at most, whatever the answers.
pub proof fn law_sweep_ends(
    s: ImportSweepModel,
    answers: Seq<Result<JsonModel, LinearErrorModel>>,
)
    requires
        0 <= s.pages < IMPORT_MAX_PAGES,
        answers.len() >= IMPORT_MAX_PAGES - s.pages,
    ensures
        sweep_over(s, answers) is Some,
    decreases answers.len(),
{
    if let Ok(data) = answers[0] {
        if let Ok(t) = sweep_next(s, data) {
            if t.1 == SweepStep::NextPage {
                law_sweep_ends(t.0, answers.skip(1));
            }
        }
    }
}

/// A page that another one follows moves the walk to where that one starts, and
/// no issue that was read is lost.
pub proof fn law_sweep_keeps_what_it_read(s: ImportSweepModel, data: JsonModel)
    requires
        sweep_next(s, data) is Ok,
    ensures
        ({
            let t = sweep_next(s, data)->Ok_0;
            &&& t.0.issues.take(s.issues.len() as int) == s.issues
            &&& t.1 == SweepStep::NextPage ==> t.0.after == next_cursor(data)
            &&& t.0.filter == s.filter
        }),
{
    let t = sweep_next(s, data)->Ok_0;
    assert(t.0.issues.take(s.issues.len() as int) =~= s.issues);
}

} // verus!
