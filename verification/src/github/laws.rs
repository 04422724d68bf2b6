//! What holds of everything that is read from the tool.
use vstd::prelude::*;

use crate::board::records::{CheckStatus, MergeStatus};
use crate::github::checks::{element_class, rollup, ElementClass, GhCheckElement};
use crate::github::cli::{
    exit_meaning, is_comment, is_review_comment, output_of, run_meaning, shows, shows_all,
    unreadable, utf8_lossy, GhCliError, GhCliErrorModel, GhRun,
};
use crate::github::created::{bare, created_link, first_link, is_link, last_line, link_in};
use crate::github::types::{
    repo_spec_of, GhCommentResponse, GhPrResponse, GhReviewCommentResponse, GitHubRepoInfo,
    PrComment, PrReviewComment, PullRequestDetail,
};
use crate::text;
use crate::text::CharClass;
use crate::time::Timestamp;

verus! {

// ---------------------------------------------------------------------------
// Pull requests
// ---------------------------------------------------------------------------
/// A pull request is shown as the tool describes it, each value under its own
/// name: the title as the title, the branch that it goes to as the base, the branch
/// that it comes from as the head. A name that the tool does not give is empty; what
/// else it does not give is not there.
pub proof fn law_pull_request_is_shown_as_described(pr: GhPrResponse, d: PullRequestDetail)
    requires
        shows(pr, d),
    ensures
        d.number == pr.number,
        d.url@ == pr.url@,
        pr.title matches Some(t) ==> d.title@ == t@,
        pr.title is None ==> d.title@.len() == 0,
        pr.base_ref_name matches Some(b) ==> d.base_branch@ == b@,
        pr.base_ref_name is None ==> d.base_branch@.len() == 0,
        pr.head_ref_name matches Some(h) ==> d.head_branch@ == h@,
        pr.head_ref_name is None ==> d.head_branch@.len() == 0,
        d.merged_at == pr.merged_at,
        pr.merge_commit matches Some(c) ==> (c.oid matches Some(o) ==> (
        d.merge_commit_sha matches Some(x) && x@ == o@)),
        pr.merge_commit matches Some(c) ==> (c.oid is None ==> d.merge_commit_sha is None),
        pr.merge_commit is None ==> d.merge_commit_sha is None,
        pr.merge_state_status matches Some(m) ==> (d.merge_state matches Some(x) && x@ == m@),
        pr.merge_state_status is None ==> d.merge_state is None,
        d.check_status is Some <==> d.status == MergeStatus::Open,
        d.check_status matches Some(c) ==> c == rollup(pr.status_check_rollup@),
{
    reveal_strlit("");
}

/// The state of a pull request is told by its word, whatever the case; no word
/// counts as open, and a word that is not known as neither open, merged nor closed.
pub proof fn law_state_is_told_by_its_word(pr: GhPrResponse, d: PullRequestDetail)
    requires
        shows(pr, d),
    ensures
        pr.state@.len() == 0 ==> d.status == MergeStatus::Open,
        pr.state@.len() > 0 ==> {
            let word = text::upper(pr.state@);
            &&& d.status == MergeStatus::Open <==> word == "OPEN"@
            &&& d.status == MergeStatus::Merged <==> word == "MERGED"@
            &&& d.status == MergeStatus::Closed <==> word == "CLOSED"@
            &&& d.status == MergeStatus::Unknown <==> word != "OPEN"@ && word != "MERGED"@ && word
                != "CLOSED"@
        },
{
    reveal_strlit("OPEN");
    reveal_strlit("MERGED");
    reveal_strlit("CLOSED");
    assert("OPEN"@.len() != "MERGED"@.len());
    assert("CLOSED"@[0] != "MERGED"@[0]);
    assert("OPEN"@.len() != "CLOSED"@.len());
}

/// A list of pull requests shows each of them once and in its place.
pub proof fn law_lists_show_one_for_one(
    prs: Seq<GhPrResponse>,
    out: Seq<PullRequestDetail>,
    i: int,
)
    requires
        shows_all(prs, out),
        0 <= i < prs.len(),
    ensures
        out.len() == prs.len(),
        out[i].number == prs[i].number,
        out[i].url@ == prs[i].url@,
        prs[i].title matches Some(t) ==> out[i].title@ == t@,
        prs[i].base_ref_name matches Some(b) ==> out[i].base_branch@ == b@,
        prs[i].head_ref_name matches Some(h) ==> out[i].head_branch@ == h@,
{
    assert(shows(prs[i], out[i]));
}

// ---------------------------------------------------------------------------
// Comments
// ---------------------------------------------------------------------------
/// A comment is shown as the tool describes it, each value under its own name. One
/// whose author is not told is by `unknown`, one whose time is not told is of the
/// present.
pub proof fn law_comment_is_shown_as_described(
    x: GhCommentResponse,
    now: Timestamp,
    c: PrComment,
)
    requires
        is_comment(x, now, c),
    ensures
        c.id@ == x.id@,
        c.body@ == x.body@,
        c.url@ == x.url@,
        c.author_association@ == x.author_association@,
        x.author matches Some(u) ==> (u.login matches Some(l) ==> c.author.login@ == l@),
        x.author matches Some(u) ==> (u.login is None ==> c.author.login@ == "unknown"@),
        x.author is None ==> c.author.login@ == "unknown"@,
        x.created_at matches Some(t) ==> c.created_at == t,
        x.created_at is None ==> c.created_at == now,
{
}

/// A review comment is shown as the tool describes it, each value under its own
/// name. One whose author is not told is by `unknown`, one whose time is not told is
/// of the present.
pub proof fn law_review_comment_is_shown_as_described(
    x: GhReviewCommentResponse,
    now: Timestamp,
    c: PrReviewComment,
)
    requires
        is_review_comment(x, now, c),
    ensures
        c.id == x.id,
        c.body@ == x.body@,
        c.html_url@ == x.html_url@,
        c.path@ == x.path@,
        c.line == x.line,
        x.side matches Some(s) ==> (c.side matches Some(t) && t@ == s@),
        x.side is None ==> c.side is None,
        c.diff_hunk@ == x.diff_hunk@,
        c.author_association@ == x.author_association@,
        x.user matches Some(u) ==> (u.login matches Some(l) ==> c.user.login@ == l@),
        x.user matches Some(u) ==> (u.login is None ==> c.user.login@ == "unknown"@),
        x.user is None ==> c.user.login@ == "unknown"@,
        x.created_at matches Some(t) ==> c.created_at == t,
        x.created_at is None ==> c.created_at == now,
{
}

// ---------------------------------------------------------------------------
// Runs
// ---------------------------------------------------------------------------
/// A run that succeeded means what it printed, whatever it complained of. One that
/// did not means its complaint, without the white space around it: a lack of
/// authentication where it ended with 4 or says so, else a failure.
pub proof fn law_failed_run_means_its_complaint(
    success: bool,
    code: Option<i32>,
    stdout: Seq<char>,
    stderr: Seq<char>,
)
    ensures
        ({
            let complaint = text::trimmed(stderr);
            let said = text::lower(complaint);
            let auth = code == Some(4i32) || text::occurs(said, "authentication failed"@)
                || text::occurs(said, "must authenticate"@) || text::occurs(
                said,
                "bad credentials"@,
            ) || text::occurs(said, "unauthorized"@) || text::occurs(said, "gh auth login"@);
            &&& success ==> exit_meaning(success, code, stdout, stderr) == Ok::<
                Seq<char>,
                GhCliErrorModel,
            >(stdout)
            &&& !success && auth ==> exit_meaning(success, code, stdout, stderr) == Err::<
                Seq<char>,
                GhCliErrorModel,
            >(GhCliErrorModel::AuthFailed(complaint))
            &&& !success && !auth ==> exit_meaning(success, code, stdout, stderr) == Err::<
                Seq<char>,
                GhCliErrorModel,
            >(GhCliErrorModel::CommandFailed(complaint))
        }),
{
}

/// A tool that is not there is not available; one that could not be started failed
/// with what is said of it; one that ran is judged by its own output and its own
/// complaints.
pub proof fn law_runs_are_judged_by_how_they_ended(run: GhRun)
    ensures
        run is NotFound ==> run_meaning(run) == Err::<Seq<char>, GhCliErrorModel>(
            GhCliErrorModel::NotAvailable,
        ),
        run matches GhRun::NotStarted(e) ==> run_meaning(run) == Err::<Seq<char>, GhCliErrorModel>(
            GhCliErrorModel::CommandFailed(e@),
        ),
        run matches GhRun::Exited { success, code, stdout, stderr } ==> (success ==> run_meaning(run)
            == Ok::<Seq<char>, GhCliErrorModel>(utf8_lossy(stdout@))),
        run matches GhRun::Exited { success, code, stdout, stderr } ==> (!success ==> (
        run_meaning(run) matches Err(e) && match e {
            GhCliErrorModel::AuthFailed(m) => m == text::trimmed(utf8_lossy(stderr@)),
            GhCliErrorModel::CommandFailed(m) => m == text::trimmed(utf8_lossy(stderr@)),
            _ => false,
        })),
{
}

/// An error in words says what kind it is, and ends with what was complained of.
pub proof fn law_errors_say_what_was_complained_of(m: Seq<char>)
    ensures
        GhCliErrorModel::NotAvailable.words()
            == "GitHub CLI (`gh`) executable not found or not runnable"@,
        GhCliErrorModel::CommandFailed(m).words() == "GitHub CLI command failed: "@ + m,
        GhCliErrorModel::AuthFailed(m).words() == "GitHub CLI authentication failed: "@ + m,
        GhCliErrorModel::UnexpectedOutput(m).words() == "GitHub CLI returned unexpected output: "@
            + m,
{
}

/// Of an output that could not be read it is said why, and what it was.
pub proof fn law_unreadable_output_is_told_whole(
    head: Seq<char>,
    err: Seq<char>,
    raw: Seq<char>,
)
    ensures
        unreadable(head, err, raw) == GhCliErrorModel::UnexpectedOutput(
            head + err + "; raw: "@ + raw,
        ),
{
}

/// A repository is named by its owner and its name, after its host where that is
/// known.
pub proof fn law_repository_is_named_by_host_owner_and_name(info: GitHubRepoInfo)
    ensures
        info.hostname is None ==> repo_spec_of(info) == info.owner@ + "/"@ + info.repo_name@,
        info.hostname matches Some(host) ==> repo_spec_of(info) == host@ + "/"@ + (info.owner@
            + "/"@ + info.repo_name@),
{
    if let Some(host) = info.hostname {
        assert(repo_spec_of(info) =~= host@ + "/"@ + (info.owner@ + "/"@ + info.repo_name@));
    }
}

// ---------------------------------------------------------------------------
// Checks
// ---------------------------------------------------------------------------
/// A run that is not complete is pending. One that is amounts to what its
/// conclusion says, whatever the case: only `SUCCESS` passes, the known failures
/// fail, what was skipped or neutral is left out, and what is not known is pending.
pub proof fn law_runs_amount_to_their_conclusion(status: Option<String>, conclusion: Option<String>)
    ensures
        ({
            let class = element_class(GhCheckElement::CheckRun { status, conclusion });
            let complete = status matches Some(s) && text::upper(s@) == "COMPLETED"@;
            &&& !complete ==> class == ElementClass::Pending
            &&& complete && conclusion is None ==> class == ElementClass::Pending
            &&& complete ==> (conclusion matches Some(c) ==> {
                let word = text::upper(c@);
                let failed = word == "FAILURE"@ || word == "TIMED_OUT"@ || word == "CANCELLED"@
                    || word == "ACTION_REQUIRED"@ || word == "STARTUP_FAILURE"@ || word
                    == "STALE"@;
                &&& class == ElementClass::Passing <==> word == "SUCCESS"@
                &&& class == ElementClass::Failing <==> failed
                &&& class == ElementClass::Neutral <==> word == "SKIPPED"@ || word == "NEUTRAL"@
            })
        }),
{
    lemma_words_apart();
}

/// The status of a commit amounts to what its state says, whatever the case: only
/// `SUCCESS` passes, failures and errors fail, what is pending or expected is
/// pending, and anything else is left out.
pub proof fn law_commit_statuses_amount_to_their_state(state: Option<String>)
    ensures
        ({
            let class = element_class(GhCheckElement::StatusContext { state });
            &&& state is None ==> class == ElementClass::Neutral
            &&& state matches Some(s) ==> {
                let word = text::upper(s@);
                &&& class == ElementClass::Passing <==> word == "SUCCESS"@
                &&& class == ElementClass::Failing <==> word == "FAILURE"@ || word == "ERROR"@
                &&& class == ElementClass::Pending <==> word == "PENDING"@ || word == "EXPECTED"@
            }
        }),
        element_class(GhCheckElement::Unknown) == ElementClass::Neutral,
{
    lemma_words_apart();
}

/// Checks fail where one fails, are pending where none fails and one is pending,
/// pass where none does either and one passes, and are none where there is nothing
/// but what was left out.
pub proof fn law_checks_amount_to_the_worst(elements: Seq<GhCheckElement>)
    ensures
        ({
            let any = |c: ElementClass|
                exists|i: int|
                    0 <= i < elements.len() && element_class(#[trigger] elements[i]) == c;
            &&& rollup(elements) == CheckStatus::Failing <==> any(ElementClass::Failing)
            &&& rollup(elements) == CheckStatus::Pending <==> !any(ElementClass::Failing) && any(
                ElementClass::Pending,
            )
            &&& rollup(elements) == CheckStatus::Passing <==> !any(ElementClass::Failing) && !any(
                ElementClass::Pending,
            ) && any(ElementClass::Passing)
            &&& rollup(elements) == CheckStatus::NoChecks <==> forall|i: int|
                0 <= i < elements.len() ==> element_class(#[trigger] elements[i])
                    == ElementClass::Neutral
        }),
{
    if rollup(elements) == CheckStatus::NoChecks {
        assert forall|i: int| 0 <= i < elements.len() implies element_class(#[trigger] elements[i])
            == ElementClass::Neutral by {
            assert(!crate::github::checks::any_of(elements, ElementClass::Failing));
            assert(!crate::github::checks::any_of(elements, ElementClass::Pending));
            assert(!crate::github::checks::any_of(elements, ElementClass::Passing));
        }
    }
}

/// The words that tell how checks went differ from each other and from nothing.
proof fn lemma_words_apart()
    ensures
        "SUCCESS"@ != "FAILURE"@,
        "SUCCESS"@ != "TIMED_OUT"@,
        "SUCCESS"@ != "CANCELLED"@,
        "SUCCESS"@ != "ACTION_REQUIRED"@,
        "SUCCESS"@ != "STARTUP_FAILURE"@,
        "SUCCESS"@ != "STALE"@,
        "SUCCESS"@ != "SKIPPED"@,
        "SUCCESS"@ != "NEUTRAL"@,
        "SUCCESS"@ != "ERROR"@,
        "SUCCESS"@ != "PENDING"@,
        "SUCCESS"@ != "EXPECTED"@,
        "SKIPPED"@ != "FAILURE"@,
        "SKIPPED"@ != "TIMED_OUT"@,
        "SKIPPED"@ != "CANCELLED"@,
        "SKIPPED"@ != "ACTION_REQUIRED"@,
        "SKIPPED"@ != "STARTUP_FAILURE"@,
        "SKIPPED"@ != "STALE"@,
        "NEUTRAL"@ != "FAILURE"@,
        "NEUTRAL"@ != "TIMED_OUT"@,
        "NEUTRAL"@ != "CANCELLED"@,
        "NEUTRAL"@ != "ACTION_REQUIRED"@,
        "NEUTRAL"@ != "STARTUP_FAILURE"@,
        "NEUTRAL"@ != "STALE"@,
        "PENDING"@ != "FAILURE"@,
        "PENDING"@ != "ERROR"@,
        "EXPECTED"@ != "FAILURE"@,
        "EXPECTED"@ != "ERROR"@,
        text::upper(""@).len() == 0,
        "COMPLETED"@.len() > 0,
        "SUCCESS"@.len() > 0,
        "FAILURE"@.len() > 0,
        "TIMED_OUT"@.len() > 0,
        "CANCELLED"@.len() > 0,
        "ACTION_REQUIRED"@.len() > 0,
        "STARTUP_FAILURE"@.len() > 0,
        "STALE"@.len() > 0,
        "SKIPPED"@.len() > 0,
        "NEUTRAL"@.len() > 0,
        "ERROR"@.len() > 0,
        "PENDING"@.len() > 0,
        "EXPECTED"@.len() > 0,
{
    reveal_strlit("");
    reveal_strlit("COMPLETED");
    reveal_strlit("SUCCESS");
    reveal_strlit("FAILURE");
    reveal_strlit("TIMED_OUT");
    reveal_strlit("CANCELLED");
    reveal_strlit("ACTION_REQUIRED");
    reveal_strlit("STARTUP_FAILURE");
    reveal_strlit("STALE");
    reveal_strlit("SKIPPED");
    reveal_strlit("NEUTRAL");
    reveal_strlit("ERROR");
    reveal_strlit("PENDING");
    reveal_strlit("EXPECTED");
    assert("SUCCESS"@[1] == 'U');
    assert("STALE"@[1] == 'T');
    assert("SKIPPED"@[1] == 'K');
    assert("NEUTRAL"@[1] == 'E');
    assert("FAILURE"@[1] == 'A');
    assert("PENDING"@[0] == 'P');
    assert("ERROR"@[1] == 'R');
    assert("EXPECTED"@[1] == 'X');
    assert("STARTUP_FAILURE"@[1] == 'T');
    assert("ACTION_REQUIRED"@[0] == 'A');
    assert("CANCELLED"@[0] == 'C');
    assert("TIMED_OUT"@[0] == 'T');
}

// ---------------------------------------------------------------------------
// Created pull requests
// ---------------------------------------------------------------------------
/// Where the last line of an output begins with the address of a pull request, that
/// is the pull request that was created, whatever was printed before and whatever
/// follows on the line; its number is the one that the address ends with.
pub proof fn law_created_pull_request_is_on_the_last_line(
    noise: Seq<char>,
    base: Seq<char>,
    n: u64,
    rest: Seq<char>,
)
    requires
        n <= i64::MAX,
        text::begins(base, "http"@),
        forall|i: int| 0 <= i < base.len() ==> !text::is_white(#[trigger] base[i]),
        rest.len() > 0 ==> text::is_white(rest[0]),
        forall|i: int| 0 <= i < rest.len() ==> #[trigger] rest[i] != '\n',
    ensures
        ({
            let url = base + "/pull/"@ + text::decimal(n as nat);
            created_link(noise.push('\n') + (url + rest)) == Ok::<
                (Seq<char>, i64),
                GhCliErrorModel,
            >((url, n as i64))
        }),
        ({
            let url = base + "/pull/"@ + text::decimal(n as nat);
            created_link(url + rest) == Ok::<(Seq<char>, i64), GhCliErrorModel>((url, n as i64))
        }),
{
    reveal_strlit("http");
    reveal_strlit("/pull/");
    let digits = text::decimal(n as nat);
    let url = base + "/pull/"@ + digits;
    let line = url + rest;
    let raw = noise.push('\n') + line;
    text::lemma_decimal(n as nat);
    assert(base.take(4)[0] == 'h');
    assert(url[0] == 'h');
    assert(text::is_digit(digits[digits.len() - 1]));
    assert(url.last() == digits.last());
    assert forall|i: int| 0 <= i < url.len() implies !text::is_white(#[trigger] url[i]) by {
        if i < base.len() {
            assert(url[i] == base[i]);
        } else if i < base.len() + 6 {
            assert(url[i] == "/pull/"@[i - base.len()]);
        } else {
            assert(url[i] == digits[i - base.len() - 6]);
            assert(text::is_digit(digits[i - base.len() - 6]));
        }
    }
    assert forall|i: int| 0 <= i < line.len() implies #[trigger] line[i] != '\n' by {
        if i < url.len() {
            assert(line[i] == url[i]);
            assert(text::is_white('\n'));
        } else {
            assert(line[i] == rest[i - url.len()]);
        }
    }
    text::law_last_position_is_the_last(line, '\n');
    text::lemma_last_position_before(noise, '\n', line);
    assert(last_line(line) == line);
    assert(raw.skip(noise.len() as int + 1) =~= line);
    assert(last_line(raw) == line);
    text::law_first_word_ends_at_white_space(url, rest);
    let found = text::words(line);
    assert(found[0] == url);
    assert(bare(url) == url);
    assert(is_link(url)) by {
        assert(url.take(4) =~= base.take(4));
        text::lemma_occurs_at(url, "/pull/"@, base.len() as int);
    }
    assert(first_link(found) == Some(url));
    assert(link_in(line) == Some(url));
    assert(link_in(raw) == Some(url));
    assert(text::strip_end(url, CharClass::ClosingPunctuation) == url);
    let slash = base.len() as int + 5;
    assert(url =~= url.take(slash).push('/') + digits);
    assert forall|i: int| 0 <= i < digits.len() implies #[trigger] digits[i] != '/' by {
        assert(text::is_digit(digits[i]));
    }
    text::lemma_last_position_before(url.take(slash), '/', digits);
    assert(url.skip(slash + 1) =~= digits);
    assert(text::strip_end(digits, CharClass::NonDigit) == digits);
    text::law_signed_decimal_round_trip(n as i64);
}

/// What is taken for the address of a created pull request is an address of a pull
/// request, ends in no closing punctuation, and has the number after its last slash.
pub proof fn law_created_address_is_one_of_a_pull_request(raw: Seq<char>)
    requires
        created_link(raw) is Ok,
    ensures
        ({
            let p = created_link(raw)->Ok_0;
            &&& text::begins(p.0, "http"@)
            &&& text::occurs(p.0, "/pull/"@)
            &&& p.0.last() != '.' && p.0.last() != ',' && p.0.last() != ';'
            &&& exists|i: int, j: int|
                0 < i <= j <= p.0.len() && p.0[i - 1] == '/' && text::parsed_i64(
                    #[trigger] p.0.subrange(i, j),
                ) == Some(p.1) && (forall|k: int|
                    j <= k < p.0.len() ==> !text::is_digit(#[trigger] p.0[k]) && p.0[k] != '/')
        }),
{
    reveal_strlit("http");
    reveal_strlit("/pull/");
    let link = link_in(raw)->0;
    let class = CharClass::ClosingPunctuation;
    let url = text::strip_end(link, class);
    lemma_found_is_link(raw);
    text::lemma_strip_end_span(link, class);
    let at = choose|i: int| text::stands_at(link, "/pull/"@, i);
    assert(link.subrange(at, at + 6) == "/pull/"@);
    assert(link[at + 5] == link.subrange(at, at + 6)[5]);
    assert(!class.holds(link[at + 5]));
    assert(at + 6 <= url.len());
    assert(url.subrange(at, at + 6) =~= link.subrange(at, at + 6));
    assert(text::stands_at(url, "/pull/"@, at));
    assert(link.take(4)[3] == 'p');
    assert(link[3] == 'p');
    assert(url.len() >= 4);
    assert(url.take(4) =~= link.take(4));
    text::law_last_position_is_the_last(url, '/');
    assert(url[at] == url.subrange(at, at + 6)[0]);
    let slash = text::last_position(url, '/')->0;
    let tail = url.skip(slash + 1);
    let digits = text::strip_end(tail, CharClass::NonDigit);
    text::lemma_strip_end_span(tail, CharClass::NonDigit);
    let i = slash + 1;
    let j = i + digits.len();
    assert(url.subrange(i, j) =~= digits);
    assert forall|k: int| j <= k < url.len() implies !text::is_digit(#[trigger] url[k]) && url[k]
        != '/' by {
        assert(tail[k - i] == url[k]);
    }
    assert(url[i - 1] == '/' && text::parsed_i64(url.subrange(i, j)) == Some(
        created_link(raw)->Ok_0.1,
    ));
}

/// What is found in a text is an address of a pull request, and stands in the text.
proof fn lemma_found_is_link(s: Seq<char>)
    ensures
        link_in(s) matches Some(link) ==> is_link(link) && text::occurs(s, link),
    decreases s.len(),
{
    let line = last_line(s);
    lemma_first_is_link(text::words(line));
    text::law_last_position_is_the_last(s, '\n');
    if let Some(link) = first_link(text::words(line)) {
        let k = choose|k: int|
            0 <= k < text::words(line).len() && text::occurs(#[trigger] text::words(line)[k], link);
        text::law_words_stand_in_the_text(line, k);
        text::lemma_occurs_trans(line, text::words(line)[k], link);
        if let Some(i) = text::last_position(s, '\n') {
            text::lemma_occurs_at(s, line, i + 1);
        } else {
            text::lemma_occurs_at(s, line, 0);
        }
        text::lemma_occurs_trans(s, line, link);
    } else {
        if let Some(i) = text::last_position(s, '\n') {
            lemma_found_is_link(s.take(i));
            text::lemma_occurs_at(s, s.take(i), 0);
            if let Some(link) = link_in(s.take(i)) {
                text::lemma_occurs_trans(s, s.take(i), link);
            }
        }
    }
}

proof fn lemma_first_is_link(words: Seq<Seq<char>>)
    ensures
        first_link(words) matches Some(link) ==> is_link(link) && exists|k: int|
            0 <= k < words.len() && text::occurs(#[trigger] words[k], link),
    decreases words.len(),
{
    if words.len() > 0 {
        if is_link(bare(words[0])) {
            let class = CharClass::AngleBracket;
            let word = words[0];
            text::law_stripping_takes_the_class_from_the_ends(word, class);
            let (a, b) = choose|a: int, b: int|
                0 <= a <= b <= word.len() && bare(word) == #[trigger] word.subrange(a, b) && (
                forall|i: int| 0 <= i < a ==> class.holds(#[trigger] word[i])) && (forall|i: int|
                    b <= i < word.len() ==> class.holds(#[trigger] word[i]));
            text::lemma_occurs_at(word, bare(word), a);
        } else {
            let rest = words.skip(1);
            lemma_first_is_link(rest);
            if let Some(link) = first_link(rest) {
                let k = choose|k: int|
                    0 <= k < rest.len() && text::occurs(#[trigger] rest[k], link);
                assert(words[k + 1] == rest[k]);
            }
        }
    }
}

/// An output in which there is no address of a pull request is told whole as an
/// error; what is taken for an address stands in the output.
pub proof fn law_no_address_is_made_up(raw: Seq<char>)
    ensures
        !text::occurs(raw, "/pull/"@) ==> created_link(raw) == Err::<
            (Seq<char>, i64),
            GhCliErrorModel,
        >(
            GhCliErrorModel::UnexpectedOutput(
                "gh pr create did not return a pull request URL; raw output: "@ + raw,
            ),
        ),
        created_link(raw) matches Ok(p) ==> text::occurs(raw, p.0),
{
    lemma_found_is_link(raw);
    if let Some(link) = link_in(raw) {
        text::lemma_occurs_trans(raw, link, "/pull/"@);
        let url = text::strip_end(link, CharClass::ClosingPunctuation);
        text::lemma_strip_end_span(link, CharClass::ClosingPunctuation);
        text::lemma_occurs_at(link, url, 0);
        text::lemma_occurs_trans(raw, link, url);
    }
}

/// What is made of a run is made of its output or of its error, as it came.
pub proof fn law_output_is_taken_as_it_came(s: String, e: GhCliError)
    ensures
        output_of(Ok(s)) == Ok::<Seq<char>, GhCliErrorModel>(s@),
        output_of(Err(e)) == Err::<Seq<char>, GhCliErrorModel>(e@),
{
}

/// An address of a pull request that has no number after its last slash is told as an
/// error, with the reason.
pub proof fn law_address_without_a_number_is_an_error(base: Seq<char>, word: Seq<char>)
    requires
        text::begins(base, "http"@),
        forall|i: int| 0 <= i < base.len() ==> !text::is_white(#[trigger] base[i]),
        forall|i: int|
            0 <= i < word.len() ==> 'a' <= #[trigger] word[i] && word[i] <= 'z',
    ensures
        ({
            let url = base + "/pull/"@ + word;
            created_link(url) == Err::<(Seq<char>, i64), GhCliErrorModel>(
                GhCliErrorModel::UnexpectedOutput(
                    "Failed to parse PR number from URL '"@ + url + "': "@ + text::i64_error_text(
                        Seq::empty(),
                    ),
                ),
            )
        }),
{
    reveal_strlit("http");
    reveal_strlit("/pull/");
    let url = base + "/pull/"@ + word;
    let none = Seq::<char>::empty();
    assert(base.take(4)[0] == 'h');
    assert(url[0] == 'h');
    assert(url.last() == if word.len() > 0 {
        word.last()
    } else {
        '/'
    });
    if word.len() > 0 {
        assert('a' <= word[word.len() - 1]);
    }
    assert forall|i: int| 0 <= i < url.len() implies !text::is_white(#[trigger] url[i]) by {
        if i < base.len() {
            assert(url[i] == base[i]);
        } else if i < base.len() + 6 {
            assert(url[i] == "/pull/"@[i - base.len()]);
        } else {
            assert(url[i] == word[i - base.len() - 6]);
        }
    }
    assert forall|i: int| 0 <= i < url.len() implies #[trigger] url[i] != '\n' by {
        assert(text::is_white('\n'));
    }
    text::law_last_position_is_the_last(url, '\n');
    assert(last_line(url) == url);
    assert(url + none =~= url);
    text::law_first_word_ends_at_white_space(url, none);
    assert(text::words(url)[0] == url);
    assert(bare(url) == url);
    assert(is_link(url)) by {
        assert(url.take(4) =~= base.take(4));
        text::lemma_occurs_at(url, "/pull/"@, base.len() as int);
    }
    assert(link_in(url) == Some(url));
    assert(text::strip_end(url, CharClass::ClosingPunctuation) == url);
    let slash = base.len() as int + 5;
    assert(url =~= url.take(slash).push('/') + word);
    assert forall|i: int| 0 <= i < word.len() implies #[trigger] word[i] != '/' by {}
    text::lemma_last_position_before(url.take(slash), '/', word);
    assert(url.skip(slash + 1) =~= word);
    text::lemma_strip_end_span(word, CharClass::NonDigit);
    let left = text::strip_end(word, CharClass::NonDigit);
    if left.len() > 0 {
        assert(left.last() == word[left.len() - 1]);
    }
    assert(left =~= none);
}

} // verus!
