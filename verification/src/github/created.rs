//! The pull request that the tool says it has created.
use vstd::prelude::*;

use crate::board::records::MergeStatus;
use crate::github::cli::{GhCliError, GhCliErrorModel};
use crate::github::types::{CreatePrRequest, PullRequestDetail};
use crate::text;
use crate::text::CharClass;

verus! {

/// Whether a word is the address of a pull request.
pub open spec fn is_link(word: Seq<char>) -> bool {
    text::begins(word, "http"@) && text::occurs(word, "/pull/"@)
}

/// A word without angle brackets around it.
pub open spec fn bare(word: Seq<char>) -> Seq<char> {
    text::strip(word, CharClass::AngleBracket)
}

/// The first address of a pull request among words.
pub open spec fn first_link(words: Seq<Seq<char>>) -> Option<Seq<char>>
    decreases words.len(),
{
    if words.len() == 0 {
        None
    } else if is_link(bare(words[0])) {
        Some(bare(words[0]))
    } else {
        first_link(words.skip(1))
    }
}

/// The last line of a text.
pub open spec fn last_line(s: Seq<char>) -> Seq<char> {
    match text::last_position(s, '\n') {
        Some(i) => s.skip(i + 1),
        None => s,
    }
}

/// The address of a pull request in a text: the first of the last line that has
/// one.
pub open spec fn link_in(s: Seq<char>) -> Option<Seq<char>>
    decreases s.len(),
{
    match first_link(text::words(last_line(s))) {
        Some(link) => Some(link),
        None => match text::last_position(s, '\n') {
            Some(i) => if 0 <= i < s.len() {
                link_in(s.take(i))
            } else {
                None
            },
            None => None,
        },
    }
}

/// What follows the last slash of a text.
pub open spec fn after_slash(s: Seq<char>) -> Seq<char> {
    match text::last_position(s, '/') {
        Some(i) => s.skip(i + 1),
        None => s,
    }
}

/// The digits that an address ends with, after its last slash.
pub open spec fn number_text(url: Seq<char>) -> Seq<char> {
    text::strip_end(after_slash(url), CharClass::NonDigit)
}

/// The address and the number of the pull request that an output speaks of.
pub open spec fn created_link(raw: Seq<char>) -> Result<(Seq<char>, i64), GhCliErrorModel> {
    match link_in(raw) {
        None => Err(
            GhCliErrorModel::UnexpectedOutput(
                "gh pr create did not return a pull request URL; raw output: "@ + raw,
            ),
        ),
        Some(link) => {
            let url = text::strip_end(link, CharClass::ClosingPunctuation);
            match text::parsed_i64(number_text(url)) {
                Some(n) => Ok((url, n)),
                None => Err(
                    GhCliErrorModel::UnexpectedOutput(
                        "Failed to parse PR number from URL '"@ + url + "': "@
                            + text::i64_error_text(number_text(url)),
                    ),
                ),
            }
        },
    }
}

/// Finds the first address of a pull request among words.
fn find_first_link(words: &Vec<&str>) -> (r: Option<String>)
    ensures
        text::opt_text(r) == first_link(words@.map_values(|w: &str| w@)),
{
    let ghost all = words@.map_values(|w: &str| w@);
    assert(all.skip(0) =~= all);
    for i in 0..words.len()
        invariant
            all == words@.map_values(|w: &str| w@),
            first_link(all) == first_link(all.skip(i as int)),
    {
        assert(all.skip(i as int)[0] == words@[i as int]@);
        assert(all.skip(i as int).skip(1) =~= all.skip(i + 1));
        let word = text::strip_text(words[i], CharClass::AngleBracket);
        if text::starts_with(word, "http") && text::contains(word, "/pull/") {
            return Some(word.to_owned());
        }
    }
    None
}

/// Finds the address of a pull request in a text.
fn find_link(raw: &str) -> (r: Option<String>)
    ensures
        text::opt_text(r) == link_in(raw@),
{
    let mut rest: &str = raw;
    loop
        invariant
            link_in(raw@) == link_in(rest@),
        decreases rest@.len(),
    {
        let v = text::chars_of(rest);
        let size: usize = v.len();
        match text::rfind(v.as_slice(), '\n') {
            Some(i) => {
                let line = rest.substring_char(i + 1, size);
                assert(line@ == rest@.skip(i + 1));
                let words = text::split_words(line);
                if let Some(link) = find_first_link(&words) {
                    return Some(link);
                }
                let front = rest.substring_char(0, i);
                assert(front@ == rest@.take(i as int));
                rest = front;
            },
            None => {
                let words = text::split_words(rest);
                return find_first_link(&words);
            },
        }
    }
}

/// What follows the last slash of a text.
fn tail_after_slash(s: &str) -> (r: &str)
    ensures
        r@ == after_slash(s@),
{
    let v = text::chars_of(s);
    let size: usize = v.len();
    match text::rfind(v.as_slice(), '/') {
        Some(i) => {
            let r = s.substring_char(i + 1, size);
            assert(r@ == s@.skip(i + 1));
            r
        },
        None => s,
    }
}

/// Reads the pull request that the tool says it has created. A pull request that
/// was just created is open, and its checks are not known yet.
pub fn parse_pr_create_text(raw: &str, request: &CreatePrRequest) -> (r: Result<
    PullRequestDetail,
    GhCliError,
>)
    ensures
        match created_link(raw@) {
            Ok(p) => {
                &&& r matches Ok(d)
                &&& d.url@ == p.0
                &&& d.number == p.1
                &&& d.status == MergeStatus::Open
                &&& d.merged_at is None
                &&& d.merge_commit_sha is None
                &&& d.title@ == request.title@
                &&& d.base_branch@ == request.base_branch@
                &&& d.head_branch@ == request.head_branch@
                &&& d.check_status is None
                &&& d.merge_state is None
            },
            Err(e) => r matches Err(f) && f@ == e,
        },
{
    let link = match find_link(raw) {
        Some(link) => link,
        None => return Err(
            GhCliError::UnexpectedOutput(
                text::join(
                    "gh pr create did not return a pull request URL; raw output: ",
                    raw,
                ),
            ),
        ),
    };
    let url = text::strip_end_text(link.as_str(), CharClass::ClosingPunctuation);
    let digits = text::strip_end_text(tail_after_slash(url), CharClass::NonDigit);
    match text::parse_i64(digits) {
        Ok(number) => Ok(
            PullRequestDetail {
                number,
                url: url.to_owned(),
                status: MergeStatus::Open,
                merged_at: None,
                merge_commit_sha: None,
                title: request.title.clone(),
                base_branch: request.base_branch.clone(),
                head_branch: request.head_branch.clone(),
                check_status: None,
                merge_state: None,
            },
        ),
        Err(e) => {
            let head = text::join3("Failed to parse PR number from URL '", url, "': ");
            Err(GhCliError::UnexpectedOutput(text::join(head.as_str(), e.as_str())))
        },
    }
}

} // verus!
