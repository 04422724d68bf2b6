//! The GitHub command line tool.
use vstd::prelude::*;

use crate::board::records::MergeStatus;
use crate::github::checks::{rollup, rollup_check_status};
use crate::github::created::{created_link, parse_pr_create_text};
use crate::github::types::{
    repo_spec_of, CreatePrRequest, GhCommentResponse, GhPrResponse, GhRepoViewResponse,
    GhReviewCommentResponse, GhUserLogin, GitHubRepoInfo, PrComment, PrCommentAuthor,
    PrReviewComment, PullRequestDetail, ReviewCommentUser,
};
use crate::order;
use crate::text;
use crate::time::Timestamp;

verus! {

// ---------------------------------------------------------------------------
// Running the tool
// ---------------------------------------------------------------------------
/// What can go wrong with the tool.
#[derive(Debug, PartialEq, Eq)]
pub enum GhCliError {
    /// It is not installed, or cannot be run.
    NotAvailable,
    CommandFailed(String),
    AuthFailed(String),
    UnexpectedOutput(String),
}

/// What a [`GhCliError`] says.
#[verifier::ext_equal]
pub enum GhCliErrorModel {
    NotAvailable,
    CommandFailed(Seq<char>),
    AuthFailed(Seq<char>),
    UnexpectedOutput(Seq<char>),
}

impl View for GhCliError {
    type V = GhCliErrorModel;

    open spec fn view(&self) -> GhCliErrorModel {
        match self {
            GhCliError::NotAvailable => GhCliErrorModel::NotAvailable,
            GhCliError::CommandFailed(m) => GhCliErrorModel::CommandFailed(m@),
            GhCliError::AuthFailed(m) => GhCliErrorModel::AuthFailed(m@),
            GhCliError::UnexpectedOutput(m) => GhCliErrorModel::UnexpectedOutput(m@),
        }
    }
}

impl GhCliErrorModel {
    /// The error in words.
    pub open spec fn words(self) -> Seq<char> {
        match self {
            GhCliErrorModel::NotAvailable =>
                "GitHub CLI (`gh`) executable not found or not runnable"@,
            GhCliErrorModel::CommandFailed(m) => "GitHub CLI command failed: "@ + m,
            GhCliErrorModel::AuthFailed(m) => "GitHub CLI authentication failed: "@ + m,
            GhCliErrorModel::UnexpectedOutput(m) => "GitHub CLI returned unexpected output: "@ + m,
        }
    }
}

impl GhCliError {
    /// The error in words.
    pub fn to_string(&self) -> (r: String)
        ensures
            r@ == self@.words(),
    {
        match self {
            GhCliError::NotAvailable =>
                "GitHub CLI (`gh`) executable not found or not runnable".to_owned(),
            GhCliError::CommandFailed(m) => text::join("GitHub CLI command failed: ", m.as_str()),
            GhCliError::AuthFailed(m) => text::join(
                "GitHub CLI authentication failed: ",
                m.as_str(),
            ),
            GhCliError::UnexpectedOutput(m) => text::join(
                "GitHub CLI returned unexpected output: ",
                m.as_str(),
            ),
        }
    }
}

/// How a run of the tool ended.
#[derive(Debug, PartialEq, Eq)]
pub enum GhRun {
    /// There is no such tool.
    NotFound,
    /// It could not be started.
    NotStarted(String),
    /// It came to an end.
    Exited { success: bool, code: Option<i32>, stdout: Vec<u8>, stderr: Vec<u8> },
}

/// The text that bytes are read as, where what is not UTF-8 is replaced.
pub uninterp spec fn utf8_lossy(bytes: Seq<u8>) -> Seq<char>;

/// `String::from_utf8_lossy` of std, made a `String`.
///
/// Claimed: the text depends on the bytes alone.
#[verifier::external_body]
pub(crate) fn lossy_text(bytes: &Vec<u8>) -> (r: String)
    ensures
        r@ == utf8_lossy(bytes@),
{
    String::from_utf8_lossy(bytes).to_string()
}

/// Whether what the tool complains of is a lack of authentication.
pub open spec fn complains_of_auth(stderr: Seq<char>) -> bool {
    let s = text::lower(stderr);
    ||| text::occurs(s, "authentication failed"@)
    ||| text::occurs(s, "must authenticate"@)
    ||| text::occurs(s, "bad credentials"@)
    ||| text::occurs(s, "unauthorized"@)
    ||| text::occurs(s, "gh auth login"@)
}

/// What the end of a run means, given its output and complaints as texts: the
/// tool ends with 4 where it lacks authentication.
pub open spec fn exit_meaning(
    success: bool,
    code: Option<i32>,
    stdout: Seq<char>,
    stderr: Seq<char>,
) -> Result<Seq<char>, GhCliErrorModel> {
    let complaint = text::trimmed(stderr);
    if success {
        Ok(stdout)
    } else if code == Some(4i32) || complains_of_auth(complaint) {
        Err(GhCliErrorModel::AuthFailed(complaint))
    } else {
        Err(GhCliErrorModel::CommandFailed(complaint))
    }
}

/// What a run means: its output or an error.
pub open spec fn run_meaning(run: GhRun) -> Result<Seq<char>, GhCliErrorModel> {
    match run {
        GhRun::NotFound => Err(GhCliErrorModel::NotAvailable),
        GhRun::NotStarted(e) => Err(GhCliErrorModel::CommandFailed(e@)),
        GhRun::Exited { success, code, stdout, stderr } => exit_meaning(
            success,
            code,
            utf8_lossy(stdout@),
            utf8_lossy(stderr@),
        ),
    }
}

/// What a result of the library means.
pub open spec fn output_of(r: Result<String, GhCliError>) -> Result<Seq<char>, GhCliErrorModel> {
    match r {
        Ok(s) => Ok(s@),
        Err(e) => Err(e@),
    }
}

/// A call of the tool: its arguments, and the directory that it runs in.
#[derive(Debug, PartialEq, Eq)]
pub struct GhCommand {
    pub args: Vec<String>,
    pub dir: Option<String>,
}

impl GhCommand {
    /// The arguments, as texts.
    pub open spec fn words(self) -> Seq<Seq<char>> {
        self.args@.map_values(|a: String| a@)
    }
}

/// Texts of their own.
fn owned(args: &[&str]) -> (r: Vec<String>)
    ensures
        r@.map_values(|a: String| a@) == args@.map_values(|a: &str| a@),
{
    let mut out: Vec<String> = Vec::new();
    for i in 0..args.len()
        invariant
            out@.len() == i,
            forall|j: int| 0 <= j < i ==> (#[trigger] out@[j])@ == args@[j]@,
    {
        out.push(args[i].to_owned());
    }
    assert(out@.map_values(|a: String| a@) =~= args@.map_values(|a: &str| a@));
    out
}

/// A text, or the empty one where there is none.
pub open spec fn text_or_empty(s: Option<String>) -> Seq<char> {
    match s {
        Some(t) => t@,
        None => ""@,
    }
}

fn or_empty(s: Option<String>) -> (r: String)
    ensures
        r@ == text_or_empty(s),
{
    match s {
        Some(t) => t,
        None => "".to_owned(),
    }
}

// ---------------------------------------------------------------------------
// Repositories
// ---------------------------------------------------------------------------
/// The host of an address, where it is one and has one.
pub uninterp spec fn url_host(url: Seq<char>) -> Option<Seq<char>>;

/// `Url::parse`, then `Url::host_str`, of the `url` crate.
///
/// Claimed: what comes back depends on the text alone; `None` is for a text that
/// is no address or an address without a host.
#[verifier::external_body]
pub(crate) fn host_of(url: &str) -> (r: Option<String>)
    ensures
        text::opt_text(r) == url_host(url@),
{
    url::Url::parse(url).ok().and_then(|u| u.host_str().map(String::from))
}

/// The repository that the tool shows, with its host.
pub fn repo_info_on_host(resp: GhRepoViewResponse, hostname: Option<String>) -> (r: GitHubRepoInfo)
    ensures
        r.owner == resp.owner.login,
        r.repo_name == resp.name,
        r.hostname == hostname,
{
    GitHubRepoInfo { owner: resp.owner.login, repo_name: resp.name, hostname }
}

// ---------------------------------------------------------------------------
// Pull requests
// ---------------------------------------------------------------------------
/// The status that a state stands for; none counts as open.
pub open spec fn merge_status(state: Seq<char>) -> MergeStatus {
    let s = if state.len() == 0 {
        "OPEN"@
    } else {
        text::upper(state)
    };
    if s == "OPEN"@ {
        MergeStatus::Open
    } else if s == "MERGED"@ {
        MergeStatus::Merged
    } else if s == "CLOSED"@ {
        MergeStatus::Closed
    } else {
        MergeStatus::Unknown
    }
}

/// Whether `d` is the pull request that the tool shows. Checks are told only
/// while it is open.
pub open spec fn shows(pr: GhPrResponse, d: PullRequestDetail) -> bool {
    &&& d.number == pr.number
    &&& d.url@ == pr.url@
    &&& d.status == merge_status(pr.state@)
    &&& d.merged_at == pr.merged_at
    &&& text::opt_text(d.merge_commit_sha) == match pr.merge_commit {
        Some(c) => text::opt_text(c.oid),
        None => None,
    }
    &&& d.title@ == text_or_empty(pr.title)
    &&& d.base_branch@ == text_or_empty(pr.base_ref_name)
    &&& d.head_branch@ == text_or_empty(pr.head_ref_name)
    &&& d.check_status == if merge_status(pr.state@) == MergeStatus::Open {
        Some(rollup(pr.status_check_rollup@))
    } else {
        None
    }
    &&& text::opt_text(d.merge_state) == text::opt_text(pr.merge_state_status)
}

/// Whether `out` are the pull requests that the tool shows, one for one.
pub open spec fn shows_all(prs: Seq<GhPrResponse>, out: Seq<PullRequestDetail>) -> bool {
    out.len() == prs.len() && forall|i: int|
        0 <= i < prs.len() ==> shows(prs[i], #[trigger] out[i])
}

/// By what pull requests are listed: those that changed last come first, those of
/// which that is not known come last.
pub open spec fn recency_keys(prs: Seq<GhPrResponse>) -> Seq<(int, int)> {
    prs.map_values(
        |pr: GhPrResponse|
            match pr.updated_at {
                Some(t) => (0int, -t.rank()),
                None => (1int, 0int),
            },
    )
}

/// Pull requests in the order in which they changed last, newest first.
pub open spec fn by_recency(prs: Seq<GhPrResponse>) -> Seq<GhPrResponse> {
    order::arranged(prs, recency_keys(prs))
}

/// What is said of an output that could not be read.
pub open spec fn unreadable(head: Seq<char>, err: Seq<char>, raw: Seq<char>) -> GhCliErrorModel {
    GhCliErrorModel::UnexpectedOutput(head + err + "; raw: "@ + raw)
}

fn unreadable_output(head: &str, err: &str, raw: &str) -> (r: GhCliError)
    ensures
        r@ == unreadable(head@, err@, raw@),
{
    let said = text::join3(head, err, "; raw: ");
    GhCliError::UnexpectedOutput(text::join(said.as_str(), raw))
}

/// The login of a user; `unknown` where there is none.
pub open spec fn login_of(user: Option<GhUserLogin>) -> Seq<char> {
    match user {
        Some(u) => match u.login {
            Some(l) => l@,
            None => "unknown"@,
        },
        None => "unknown"@,
    }
}

fn take_login(user: Option<GhUserLogin>) -> (r: String)
    ensures
        r@ == login_of(user),
{
    match user {
        Some(u) => match u.login {
            Some(l) => l,
            None => "unknown".to_owned(),
        },
        None => "unknown".to_owned(),
    }
}

/// A point in time, or the present where it is not known.
pub open spec fn time_or(t: Option<Timestamp>, now: Timestamp) -> Timestamp {
    match t {
        Some(t) => t,
        None => now,
    }
}

/// Whether `c` is the comment that the tool shows.
pub open spec fn is_comment(x: GhCommentResponse, now: Timestamp, c: PrComment) -> bool {
    &&& c.id@ == x.id@
    &&& c.author.login@ == login_of(x.author)
    &&& c.author_association@ == x.author_association@
    &&& c.body@ == x.body@
    &&& c.created_at == time_or(x.created_at, now)
    &&& c.url@ == x.url@
}

/// Whether `c` is the review comment that the tool shows.
pub open spec fn is_review_comment(
    x: GhReviewCommentResponse,
    now: Timestamp,
    c: PrReviewComment,
) -> bool {
    &&& c.id == x.id
    &&& c.user.login@ == login_of(x.user)
    &&& c.body@ == x.body@
    &&& c.created_at == time_or(x.created_at, now)
    &&& c.html_url@ == x.html_url@
    &&& c.path@ == x.path@
    &&& c.line == x.line
    &&& text::opt_text(c.side) == text::opt_text(x.side)
    &&& c.diff_hunk@ == x.diff_hunk@
    &&& c.author_association@ == x.author_association@
}

/// Makes a pull request of what the tool shows.
pub fn pr_response_to_detail(pr: GhPrResponse) -> (d: PullRequestDetail)
    ensures
        shows(pr, d),
{
    let empty = text::chars_of(pr.state.as_str()).len() == 0;
    let state = if empty {
        "OPEN".to_owned()
    } else {
        text::to_upper(pr.state.as_str())
    };
    let status = if text::same(state.as_str(), "OPEN") {
        MergeStatus::Open
    } else if text::same(state.as_str(), "MERGED") {
        MergeStatus::Merged
    } else if text::same(state.as_str(), "CLOSED") {
        MergeStatus::Closed
    } else {
        MergeStatus::Unknown
    };
    let check_status = if status == MergeStatus::Open {
        Some(rollup_check_status(pr.status_check_rollup.as_slice()))
    } else {
        None
    };
    PullRequestDetail {
        number: pr.number,
        url: pr.url,
        status,
        merged_at: pr.merged_at,
        merge_commit_sha: match pr.merge_commit {
            Some(c) => c.oid,
            None => None,
        },
        title: or_empty(pr.title),
        base_branch: or_empty(pr.base_ref_name),
        head_branch: or_empty(pr.head_ref_name),
        check_status,
        merge_state: pr.merge_state_status,
    }
}

/// Makes pull requests of what the tool shows.
fn details(prs: Vec<GhPrResponse>) -> (r: Vec<PullRequestDetail>)
    ensures
        shows_all(prs@, r@),
{
    let mut out: Vec<PullRequestDetail> = Vec::new();
    for pr in it: prs
        invariant
            out@.len() == it.index(),
            it.seq() == prs@,
            forall|j: int| 0 <= j < it.index() ==> shows(it.seq()[j], #[trigger] out@[j]),
    {
        out.push(pr_response_to_detail(pr));
    }
    out
}

/// Puts pull requests in the order in which they changed last, newest first.
fn sort_by_recency(prs: Vec<GhPrResponse>) -> (r: Vec<GhPrResponse>)
    ensures
        r@ == by_recency(prs@),
{
    let mut keys: Vec<(i64, i128)> = Vec::new();
    for i in 0..prs.len()
        invariant
            keys@.len() == i,
            forall|j: int|
                0 <= j < i ==> (#[trigger] order::as_keys(keys@)[j]) == recency_keys(prs@)[j],
    {
        let ghost before = keys@;
        let key: (i64, i128) = match prs[i].updated_at {
            Some(t) => (0, -t.order_key()),
            None => (1, 0),
        };
        keys.push(key);
        assert forall|j: int| 0 <= j < keys@.len() implies (#[trigger] order::as_keys(keys@)[j])
            == recency_keys(prs@)[j] by {
            if j < i {
                assert(order::as_keys(keys@)[j] == order::as_keys(before)[j]);
            }
        }
    }
    assert(order::as_keys(keys@) =~= recency_keys(prs@));
    let perm = order::find_stable_order(&keys);
    let ghost positions = order::as_positions(perm@);
    let mut pool: Vec<Option<GhPrResponse>> = Vec::new();
    let ghost all = prs@;
    for pr in it: prs
        invariant
            pool@.len() == it.index(),
            it.seq() == all,
            forall|j: int| 0 <= j < it.index() ==> #[trigger] pool@[j] == Some(all[j]),
    {
        pool.push(Some(pr));
    }
    let mut out: Vec<GhPrResponse> = Vec::new();
    for k in 0..perm.len()
        invariant
            out@.len() == k,
            pool@.len() == all.len(),
            perm@.len() == all.len(),
            positions == order::as_positions(perm@),
            order::is_stable_order(recency_keys(all), positions),
            forall|j: int| 0 <= j < k ==> #[trigger] out@[j] == all[positions[j]],
            forall|v: int|
                0 <= v < all.len() && !positions.take(k as int).contains(v)
                    ==> #[trigger] pool@[v] == Some(all[v]),
    {
        let i: usize = perm[k];
        proof {
            assert(positions[k as int] == i);
            assert(!positions.take(k as int).contains(i as int)) by {
                if positions.take(k as int).contains(i as int) {
                    let j = choose|j: int| 0 <= j < k && positions.take(k as int)[j] == i;
                    assert(order::comes_before(
                        recency_keys(all),
                        positions[j],
                        positions[k as int],
                    ));
                }
            }
        }
        let mut slot: Option<GhPrResponse> = None;
        let ghost before = pool@;
        std::mem::swap(&mut pool[i], &mut slot);
        proof {
            assert forall|v: int|
                0 <= v < all.len() && !positions.take(k + 1).contains(v) implies #[trigger] pool@[v]
                == Some(all[v]) by {
                if positions.take(k as int).contains(v) {
                    let j = choose|j: int| 0 <= j < k && positions.take(k as int)[j] == v;
                    assert(positions.take(k + 1)[j] == v);
                }
                assert(positions.take(k + 1)[k as int] == i);
                assert(v != i);
                assert(before[v] == Some(all[v]));
            }
        }
        if let Some(pr) = slot {
            out.push(pr);
        }
    }
    assert(out@ =~= by_recency(all));
    out
}

/// The GitHub command line tool.
#[derive(Debug, PartialEq, Eq)]
pub struct GhCli;

impl Clone for GhCli {
    fn clone(&self) -> (r: GhCli)
        ensures
            r == *self,
    {
        GhCli
    }
}

impl Default for GhCli {
    fn default() -> (r: GhCli)
        ensures
            r == GhCli,
    {
        GhCli
    }
}

impl GhCli {
    /// The tool.
    pub fn new() -> (r: GhCli)
        ensures
            r == GhCli,
    {
        GhCli
    }

    /// What a run means: its output or an error.
    pub fn run(&self, run: GhRun) -> (r: Result<String, GhCliError>)
        ensures
            output_of(r) == run_meaning(run),
    {
        match run {
            GhRun::NotFound => Err(GhCliError::NotAvailable),
            GhRun::NotStarted(e) => Err(GhCliError::CommandFailed(e)),
            GhRun::Exited { success, code, stdout, stderr } => {
                let out = lossy_text(&stdout);
                let err = lossy_text(&stderr);
                self.judge_exit(success, code, out, err.as_str())
            },
        }
    }

    /// What the end of a run means, given its output and complaints as texts.
    pub fn judge_exit(
        &self,
        success: bool,
        code: Option<i32>,
        stdout: String,
        stderr: &str,
    ) -> (r: Result<String, GhCliError>)
        ensures
            output_of(r) == exit_meaning(success, code, stdout@, stderr@),
    {
        if success {
            return Ok(stdout);
        }
        let complaint = text::trim(stderr);
        if let Some(c) = code {
            if c == 4 {
                return Err(GhCliError::AuthFailed(complaint.to_owned()));
            }
        }
        let lower = text::to_lower(complaint);
        let s = lower.as_str();
        if text::contains(s, "authentication failed") || text::contains(s, "must authenticate")
            || text::contains(s, "bad credentials") || text::contains(s, "unauthorized")
            || text::contains(s, "gh auth login") {
            return Err(GhCliError::AuthFailed(complaint.to_owned()));
        }
        Err(GhCliError::CommandFailed(complaint.to_owned()))
    }

    /// The call that shows a repository.
    pub fn repo_info_command(&self, remote_url: &str, repo_path: &str) -> (r: GhCommand)
        ensures
            r.words() == seq!["repo"@, "view"@, remote_url@, "--json"@, "owner,name,url"@],
            text::opt_text(r.dir) == Some(repo_path@),
    {
        let list = ["repo", "view", remote_url, "--json", "owner,name,url"];
        let args = owned(&list);
        assert(args@.map_values(|a: String| a@) =~= seq![
            "repo"@,
            "view"@,
            remote_url@,
            "--json"@,
            "owner,name,url"@,
        ]);
        GhCommand { args, dir: Some(repo_path.to_owned()) }
    }

    /// The repository that the tool shows. `read` is how the output reads; it is
    /// not looked at where there is none.
    pub fn get_repo_info(
        &self,
        output: Result<String, GhCliError>,
        read: Result<GhRepoViewResponse, String>,
    ) -> (r: Result<GitHubRepoInfo, GhCliError>)
        ensures
            match output_of(output) {
                Err(e) => r matches Err(f) && f@ == e,
                Ok(_) => match read {
                    Err(e) => r matches Err(f) && f@ == GhCliErrorModel::UnexpectedOutput(
                        "Failed to parse gh repo view response: "@ + e@,
                    ),
                    Ok(resp) => {
                        &&& r matches Ok(info)
                        &&& info.owner == resp.owner.login
                        &&& info.repo_name == resp.name
                        &&& text::opt_text(info.hostname) == url_host(resp.url@)
                    },
                },
            },
    {
        if let Err(e) = output {
            return Err(e);
        }
        match read {
            Ok(resp) => {
                let hostname = host_of(resp.url.as_str());
                Ok(repo_info_on_host(resp, hostname))
            },
            Err(e) => Err(
                GhCliError::UnexpectedOutput(
                    text::join("Failed to parse gh repo view response: ", e.as_str()),
                ),
            ),
        }
    }

    /// The call that creates a pull request whose description is in a file. It
    /// runs in the repository, as older versions of the tool have to.
    pub fn create_pr_command(
        &self,
        request: &CreatePrRequest,
        repo_info: &GitHubRepoInfo,
        body_file: &str,
        repo_path: &str,
    ) -> (r: GhCommand)
        ensures
            r.words() == seq![
                "pr"@,
                "create"@,
                "--repo"@,
                repo_spec_of(*repo_info),
                "--head"@,
                request.head_branch@,
                "--base"@,
                request.base_branch@,
                "--title"@,
                request.title@,
                "--body-file"@,
                body_file@,
            ] + (if request.draft == Some(true) {
                seq!["--draft"@]
            } else {
                Seq::empty()
            }),
            text::opt_text(r.dir) == Some(repo_path@),
    {
        let repo_spec = repo_info.repo_spec();
        let list = [
            "pr",
            "create",
            "--repo",
            repo_spec.as_str(),
            "--head",
            request.head_branch.as_str(),
            "--base",
            request.base_branch.as_str(),
            "--title",
            request.title.as_str(),
            "--body-file",
            body_file,
        ];
        let mut args = owned(&list);
        let ghost plain = seq![
            "pr"@,
            "create"@,
            "--repo"@,
            repo_spec_of(*repo_info),
            "--head"@,
            request.head_branch@,
            "--base"@,
            request.base_branch@,
            "--title"@,
            request.title@,
            "--body-file"@,
            body_file@,
        ];
        assert(args@.map_values(|a: String| a@) =~= plain);
        let draft = match request.draft {
            Some(d) => d,
            None => false,
        };
        if draft {
            args.push("--draft".to_owned());
            assert(args@.map_values(|a: String| a@) =~= plain + seq!["--draft"@]);
        } else {
            assert(plain + Seq::<Seq<char>>::empty() =~= plain);
        }
        GhCommand { args, dir: Some(repo_path.to_owned()) }
    }

    /// The pull request that was created.
    pub fn create_pr(
        &self,
        output: Result<String, GhCliError>,
        request: &CreatePrRequest,
    ) -> (r: Result<PullRequestDetail, GhCliError>)
        ensures
            match output_of(output) {
                Err(e) => r matches Err(f) && f@ == e,
                Ok(raw) => match created_link(raw) {
                    Err(e) => r matches Err(f) && f@ == e,
                    Ok(p) => {
                        &&& r matches Ok(d)
                        &&& d.url@ == p.0
                        &&& d.number == p.1
                        &&& d.status == MergeStatus::Open
                        &&& d.merged_at is None
                        &&& d.merge_commit_sha is None
                        &&& d.title@ == request.title@
                        &&& d.base_branch@ == request.base_branch@
                        &&& d.head_branch@ == request.head_branch@
                        &&& d.check_status is None
                        &&& d.merge_state is None
                    },
                },
            },
    {
        match output {
            Ok(raw) => parse_pr_create_text(raw.as_str(), request),
            Err(e) => Err(e),
        }
    }

    /// The call that shows a pull request.
    pub fn view_pr_command(&self, pr_url: &str) -> (r: GhCommand)
        ensures
            r.words() == seq![
                "pr"@,
                "view"@,
                pr_url@,
                "--json"@,
                "number,url,state,mergedAt,mergeCommit,title,baseRefName,headRefName,statusCheckRollup,mergeStateStatus"@,
            ],
            r.dir is None,
    {
        let list = [
            "pr",
            "view",
            pr_url,
            "--json",
            "number,url,state,mergedAt,mergeCommit,title,baseRefName,headRefName,statusCheckRollup,mergeStateStatus",
        ];
        let args = owned(&list);
        assert(args@.map_values(|a: String| a@) =~= seq![
            "pr"@,
            "view"@,
            pr_url@,
            "--json"@,
            "number,url,state,mergedAt,mergeCommit,title,baseRefName,headRefName,statusCheckRollup,mergeStateStatus"@,
        ]);
        GhCommand { args, dir: None }
    }

    /// The pull request that the tool shows. `read` is how the output reads.
    pub fn view_pr(
        &self,
        output: Result<String, GhCliError>,
        read: Result<GhPrResponse, String>,
    ) -> (r: Result<PullRequestDetail, GhCliError>)
        ensures
            match output_of(output) {
                Err(e) => r matches Err(f) && f@ == e,
                Ok(raw) => match read {
                    Ok(pr) => r matches Ok(d) && shows(pr, d),
                    Err(e) => r matches Err(f) && f@ == unreadable(
                        "Failed to parse gh pr view response: "@,
                        e@,
                        raw,
                    ),
                },
            },
    {
        let raw = match output {
            Ok(raw) => raw,
            Err(e) => return Err(e),
        };
        match read {
            Ok(pr) => Ok(pr_response_to_detail(pr)),
            Err(e) => Err(
                unreadable_output(
                    "Failed to parse gh pr view response: ",
                    e.as_str(),
                    raw.as_str(),
                ),
            ),
        }
    }

    /// The call that lists the pull requests of a branch, whatever their state.
    pub fn list_prs_for_branch_command(&self, repo_info: &GitHubRepoInfo, branch: &str) -> (r:
        GhCommand)
        ensures
            r.words() == seq![
                "pr"@,
                "list"@,
                "--repo"@,
                repo_spec_of(*repo_info),
                "--state"@,
                "all"@,
                "--head"@,
                branch@,
                "--json"@,
                "number,url,title,headRefName,baseRefName,state,mergedAt,mergeCommit,statusCheckRollup,mergeStateStatus"@,
            ],
            r.dir is None,
    {
        let repo_spec = repo_info.repo_spec();
        let list = [
            "pr",
            "list",
            "--repo",
            repo_spec.as_str(),
            "--state",
            "all",
            "--head",
            branch,
            "--json",
            "number,url,title,headRefName,baseRefName,state,mergedAt,mergeCommit,statusCheckRollup,mergeStateStatus",
        ];
        let args = owned(&list);
        assert(args@.map_values(|a: String| a@) =~= seq![
            "pr"@,
            "list"@,
            "--repo"@,
            repo_spec_of(*repo_info),
            "--state"@,
            "all"@,
            "--head"@,
            branch@,
            "--json"@,
            "number,url,title,headRefName,baseRefName,state,mergedAt,mergeCommit,statusCheckRollup,mergeStateStatus"@,
        ]);
        GhCommand { args, dir: None }
    }

    /// The pull requests of a branch, in the order of the tool. `read` is how the
    /// output reads.
    pub fn list_prs_for_branch(
        &self,
        output: Result<String, GhCliError>,
        read: Result<Vec<GhPrResponse>, String>,
    ) -> (r: Result<Vec<PullRequestDetail>, GhCliError>)
        ensures
            match output_of(output) {
                Err(e) => r matches Err(f) && f@ == e,
                Ok(raw) => match read {
                    Ok(prs) => r matches Ok(v) && shows_all(prs@, v@),
                    Err(e) => r matches Err(f) && f@ == unreadable(
                        "Failed to parse gh pr list response: "@,
                        e@,
                        raw,
                    ),
                },
            },
    {
        let raw = match output {
            Ok(raw) => raw,
            Err(e) => return Err(e),
        };
        match read {
            Ok(prs) => Ok(details(prs)),
            Err(e) => Err(
                unreadable_output(
                    "Failed to parse gh pr list response: ",
                    e.as_str(),
                    raw.as_str(),
                ),
            ),
        }
    }

    /// The call that lists the open pull requests of a repository.
    pub fn list_open_prs_command(&self, owner: &str, repo: &str) -> (r: GhCommand)
        ensures
            r.words() == seq![
                "pr"@,
                "list"@,
                "--repo"@,
                owner@ + "/"@ + repo@,
                "--state"@,
                "open"@,
                "--json"@,
                "number,url,title,headRefName,baseRefName,state,mergedAt,mergeCommit,updatedAt,statusCheckRollup,mergeStateStatus"@,
            ],
            r.dir is None,
    {
        let repo_spec = text::join3(owner, "/", repo);
        let list = [
            "pr",
            "list",
            "--repo",
            repo_spec.as_str(),
            "--state",
            "open",
            "--json",
            "number,url,title,headRefName,baseRefName,state,mergedAt,mergeCommit,updatedAt,statusCheckRollup,mergeStateStatus",
        ];
        let args = owned(&list);
        assert(args@.map_values(|a: String| a@) =~= seq![
            "pr"@,
            "list"@,
            "--repo"@,
            owner@ + "/"@ + repo@,
            "--state"@,
            "open"@,
            "--json"@,
            "number,url,title,headRefName,baseRefName,state,mergedAt,mergeCommit,updatedAt,statusCheckRollup,mergeStateStatus"@,
        ]);
        GhCommand { args, dir: None }
    }

    /// The call that lists the last closed pull requests of a repository.
    pub fn list_closed_prs_command(&self, owner: &str, repo: &str) -> (r: GhCommand)
        ensures
            r.words() == seq![
                "pr"@,
                "list"@,
                "--repo"@,
                owner@ + "/"@ + repo@,
                "--state"@,
                "closed"@,
                "--limit"@,
                "20"@,
                "--json"@,
                "number,url,title,headRefName,baseRefName,state,mergedAt,mergeCommit,updatedAt,statusCheckRollup,mergeStateStatus"@,
            ],
            r.dir is None,
    {
        let repo_spec = text::join3(owner, "/", repo);
        let list = [
            "pr",
            "list",
            "--repo",
            repo_spec.as_str(),
            "--state",
            "closed",
            "--limit",
            "20",
            "--json",
            "number,url,title,headRefName,baseRefName,state,mergedAt,mergeCommit,updatedAt,statusCheckRollup,mergeStateStatus",
        ];
        let args = owned(&list);
        assert(args@.map_values(|a: String| a@) =~= seq![
            "pr"@,
            "list"@,
            "--repo"@,
            owner@ + "/"@ + repo@,
            "--state"@,
            "closed"@,
            "--limit"@,
            "20"@,
            "--json"@,
            "number,url,title,headRefName,baseRefName,state,mergedAt,mergeCommit,updatedAt,statusCheckRollup,mergeStateStatus"@,
        ]);
        GhCommand { args, dir: None }
    }

    /// The open and the last closed pull requests of a repository, those that
    /// changed last first. `open_read` and `closed_read` are how the outputs read.
    pub fn list_prs(
        &self,
        open_output: Result<String, GhCliError>,
        closed_output: Result<String, GhCliError>,
        open_read: Result<Vec<GhPrResponse>, String>,
        closed_read: Result<Vec<GhPrResponse>, String>,
    ) -> (r: Result<Vec<PullRequestDetail>, GhCliError>)
        ensures
            match (output_of(open_output), output_of(closed_output)) {
                (Err(e), _) => r matches Err(f) && f@ == e,
                (Ok(_), Err(e)) => r matches Err(f) && f@ == e,
                (Ok(open_raw), Ok(closed_raw)) => match (open_read, closed_read) {
                    (Err(e), _) => r matches Err(f) && f@ == unreadable(
                        "Failed to parse gh pr list (open) response: "@,
                        e@,
                        open_raw,
                    ),
                    (Ok(_), Err(e)) => r matches Err(f) && f@ == unreadable(
                        "Failed to parse gh pr list (closed) response: "@,
                        e@,
                        closed_raw,
                    ),
                    (Ok(open), Ok(closed)) => r matches Ok(v) && shows_all(
                        by_recency(open@ + closed@),
                        v@,
                    ),
                },
            },
    {
        let open_raw = match open_output {
            Ok(raw) => raw,
            Err(e) => return Err(e),
        };
        let closed_raw = match closed_output {
            Ok(raw) => raw,
            Err(e) => return Err(e),
        };
        let mut prs = match open_read {
            Ok(prs) => prs,
            Err(e) => return Err(
                unreadable_output(
                    "Failed to parse gh pr list (open) response: ",
                    e.as_str(),
                    open_raw.as_str(),
                ),
            ),
        };
        let mut closed = match closed_read {
            Ok(prs) => prs,
            Err(e) => return Err(
                unreadable_output(
                    "Failed to parse gh pr list (closed) response: ",
                    e.as_str(),
                    closed_raw.as_str(),
                ),
            ),
        };
        prs.append(&mut closed);
        let sorted = sort_by_recency(prs);
        Ok(details(sorted))
    }

    /// The call that shows the comments of a pull request.
    pub fn pr_comments_command(&self, repo_info: &GitHubRepoInfo, pr_number: i64) -> (r: GhCommand)
        ensures
            r.words() == seq![
                "pr"@,
                "view"@,
                text::decimal_int(pr_number as int),
                "--repo"@,
                repo_spec_of(*repo_info),
                "--json"@,
                "comments"@,
            ],
            r.dir is None,
    {
        let repo_spec = repo_info.repo_spec();
        let number = text::decimal_of_int(pr_number);
        let list = [
            "pr",
            "view",
            number.as_str(),
            "--repo",
            repo_spec.as_str(),
            "--json",
            "comments",
        ];
        let args = owned(&list);
        assert(args@.map_values(|a: String| a@) =~= seq![
            "pr"@,
            "view"@,
            text::decimal_int(pr_number as int),
            "--repo"@,
            repo_spec_of(*repo_info),
            "--json"@,
            "comments"@,
        ]);
        GhCommand { args, dir: None }
    }

    /// The comments of a pull request. `read` is how the output reads; a comment
    /// without a time counts as made `now`.
    pub fn get_pr_comments(
        &self,
        output: Result<String, GhCliError>,
        read: Result<Vec<GhCommentResponse>, String>,
        now: Timestamp,
    ) -> (r: Result<Vec<PrComment>, GhCliError>)
        ensures
            match output_of(output) {
                Err(e) => r matches Err(f) && f@ == e,
                Ok(raw) => match read {
                    Ok(items) => r matches Ok(v) && v@.len() == items@.len() && forall|i: int|
                        0 <= i < items@.len() ==> is_comment(items@[i], now, #[trigger] v@[i]),
                    Err(e) => r matches Err(f) && f@ == unreadable(
                        "Failed to parse gh pr view --json comments response: "@,
                        e@,
                        raw,
                    ),
                },
            },
    {
        let raw = match output {
            Ok(raw) => raw,
            Err(e) => return Err(e),
        };
        let items = match read {
            Ok(items) => items,
            Err(e) => return Err(
                unreadable_output(
                    "Failed to parse gh pr view --json comments response: ",
                    e.as_str(),
                    raw.as_str(),
                ),
            ),
        };
        let mut out: Vec<PrComment> = Vec::new();
        for c in it: items
            invariant
                out@.len() == it.index(),
                forall|j: int|
                    0 <= j < it.index() ==> is_comment(it.seq()[j], now, #[trigger] out@[j]),
        {
            let created_at = match c.created_at {
                Some(t) => t,
                None => now,
            };
            out.push(
                PrComment {
                    id: c.id,
                    author: PrCommentAuthor { login: take_login(c.author) },
                    author_association: c.author_association,
                    body: c.body,
                    created_at,
                    url: c.url,
                },
            );
        }
        Ok(out)
    }

    /// The call that shows the review comments of a pull request.
    pub fn pr_review_comments_command(&self, repo_info: &GitHubRepoInfo, pr_number: i64) -> (r:
        GhCommand)
        ensures
            r.words() == seq![
                "api"@,
                "repos/"@ + repo_info.owner@ + "/"@ + repo_info.repo_name@ + "/pulls/"@
                    + text::decimal_int(pr_number as int) + "/comments"@,
            ] + (match repo_info.hostname {
                Some(host) => seq!["--hostname"@, host@],
                None => Seq::empty(),
            }),
            r.dir is None,
    {
        let number = text::decimal_of_int(pr_number);
        let head = text::join3("repos/", repo_info.owner.as_str(), "/");
        let base = text::join3(head.as_str(), repo_info.repo_name.as_str(), "/pulls/");
        let path = text::join3(base.as_str(), number.as_str(), "/comments");
        let list = ["api", path.as_str()];
        let mut args = owned(&list);
        let ghost plain = seq![
            "api"@,
            "repos/"@ + repo_info.owner@ + "/"@ + repo_info.repo_name@ + "/pulls/"@
                + text::decimal_int(pr_number as int) + "/comments"@,
        ];
        assert(args@.map_values(|a: String| a@) =~= plain);
        match &repo_info.hostname {
            Some(host) => {
                args.push("--hostname".to_owned());
                args.push(host.clone());
                assert(args@.map_values(|a: String| a@) =~= plain + seq!["--hostname"@, host@]);
            },
            None => {
                assert(plain + Seq::<Seq<char>>::empty() =~= plain);
            },
        }
        GhCommand { args, dir: None }
    }

    /// The review comments of a pull request. `read` is how the output reads; a
    /// comment without a time counts as made `now`.
    pub fn get_pr_review_comments(
        &self,
        output: Result<String, GhCliError>,
        read: Result<Vec<GhReviewCommentResponse>, String>,
        now: Timestamp,
    ) -> (r: Result<Vec<PrReviewComment>, GhCliError>)
        ensures
            match output_of(output) {
                Err(e) => r matches Err(f) && f@ == e,
                Ok(raw) => match read {
                    Ok(items) => r matches Ok(v) && v@.len() == items@.len() && forall|i: int|
                        0 <= i < items@.len() ==> is_review_comment(
                            items@[i],
                            now,
                            #[trigger] v@[i],
                        ),
                    Err(e) => r matches Err(f) && f@ == unreadable(
                        "Failed to parse review comments API response: "@,
                        e@,
                        raw,
                    ),
                },
            },
    {
        let raw = match output {
            Ok(raw) => raw,
            Err(e) => return Err(e),
        };
        let items = match read {
            Ok(items) => items,
            Err(e) => return Err(
                unreadable_output(
                    "Failed to parse review comments API response: ",
                    e.as_str(),
                    raw.as_str(),
                ),
            ),
        };
        let mut out: Vec<PrReviewComment> = Vec::new();
        for c in it: items
            invariant
                out@.len() == it.index(),
                forall|j: int|
                    0 <= j < it.index() ==> is_review_comment(
                        it.seq()[j],
                        now,
                        #[trigger] out@[j],
                    ),
        {
            let created_at = match c.created_at {
                Some(t) => t,
                None => now,
            };
            out.push(
                PrReviewComment {
                    id: c.id,
                    user: ReviewCommentUser { login: take_login(c.user) },
                    body: c.body,
                    created_at,
                    html_url: c.html_url,
                    path: c.path,
                    line: c.line,
                    side: c.side,
                    diff_hunk: c.diff_hunk,
                    author_association: c.author_association,
                },
            );
        }
        Ok(out)
    }

    /// The call that checks the branch of a pull request out.
    pub fn pr_checkout_command(&self, repo_path: &str, owner: &str, repo: &str, pr_number: i64)
        -> (r: GhCommand)
        ensures
            r.words() == seq![
                "pr"@,
                "checkout"@,
                text::decimal_int(pr_number as int),
                "--repo"@,
                owner@ + "/"@ + repo@,
                "--force"@,
            ],
            text::opt_text(r.dir) == Some(repo_path@),
    {
        let repo_spec = text::join3(owner, "/", repo);
        let number = text::decimal_of_int(pr_number);
        let list = ["pr", "checkout", number.as_str(), "--repo", repo_spec.as_str(), "--force"];
        let args = owned(&list);
        assert(args@.map_values(|a: String| a@) =~= seq![
            "pr"@,
            "checkout"@,
            text::decimal_int(pr_number as int),
            "--repo"@,
            owner@ + "/"@ + repo@,
            "--force"@,
        ]);
        GhCommand { args, dir: Some(repo_path.to_owned()) }
    }

    /// Whether the branch of a pull request was checked out.
    pub fn pr_checkout(&self, output: Result<String, GhCliError>) -> (r: Result<(), GhCliError>)
        ensures
            match output_of(output) {
                Err(e) => r matches Err(f) && f@ == e,
                Ok(_) => r is Ok,
            },
    {
        match output {
            Ok(_) => Ok(()),
            Err(e) => Err(e),
        }
    }
}

/// The list of pull requests has each of the open and the closed ones, and one
/// that changed later never comes after one that changed earlier.
pub proof fn law_list_is_complete_and_newest_first(prs: Seq<GhPrResponse>)
    ensures
        ({
            let out = by_recency(prs);
            &&& out.len() == prs.len()
            &&& forall|x: GhPrResponse| out.contains(x) <==> prs.contains(x)
            &&& forall|i: int, j: int|
                0 <= i < j < out.len() ==> ((#[trigger] out[j]).updated_at matches Some(t) ==> (
                #[trigger] out[i]).updated_at matches Some(s) && !s.before(t))
        }),
{
    let keys = recency_keys(prs);
    let out = by_recency(prs);
    order::lemma_arranged(prs, keys);
    order::lemma_stable_order_exists(keys);
    let perm = order::stable_order(keys);
    assert forall|i: int, j: int| 0 <= i < j < out.len() implies ((
    #[trigger] out[j]).updated_at matches Some(t) ==> (
    #[trigger] out[i]).updated_at matches Some(s) && !s.before(t)) by {
        assert(order::comes_before(keys, perm[i], perm[j]));
        assert(out[i] == prs[perm[i]] && out[j] == prs[perm[j]]);
        if let Some(t) = out[j].updated_at {
            if let Some(s) = out[i].updated_at {
                crate::time::lemma_rank_orders(s, t);
            }
        }
    }
}

} // verus!
