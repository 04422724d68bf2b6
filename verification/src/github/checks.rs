//! The checks of a pull request.
use vstd::prelude::*;

use crate::board::records::CheckStatus;
use crate::text;

verus! {

/// A check, as the tool shows it. Runs tell by status and conclusion, statuses of
/// commits by their state alone.
#[derive(Debug, PartialEq, Eq)]
pub enum GhCheckElement {
    CheckRun { status: Option<String>, conclusion: Option<String> },
    StatusContext { state: Option<String> },
    /// A kind of check that is not known.
    Unknown,
}

/// What a check amounts to.
#[derive(Clone, Copy, Debug, PartialEq, Eq, Structural)]
pub enum ElementClass {
    Failing,
    Pending,
    Passing,
    /// It did not run, and was not meant to.
    Neutral,
}

/// A text in upper case; empty where there is none.
pub open spec fn upper_or_empty(s: Option<String>) -> Seq<char> {
    match s {
        Some(t) => text::upper(t@),
        None => text::upper(""@),
    }
}

/// What a run amounts to. One that is not complete is pending, and so is one whose
/// conclusion is not known: it is not taken for a success.
pub open spec fn run_class(status: Seq<char>, conclusion: Seq<char>) -> ElementClass {
    if status != "COMPLETED"@ {
        ElementClass::Pending
    } else if conclusion == "SUCCESS"@ {
        ElementClass::Passing
    } else if conclusion == "FAILURE"@ || conclusion == "TIMED_OUT"@ || conclusion == "CANCELLED"@
        || conclusion == "ACTION_REQUIRED"@ || conclusion == "STARTUP_FAILURE"@ || conclusion
        == "STALE"@ {
        ElementClass::Failing
    } else if conclusion == "SKIPPED"@ || conclusion == "NEUTRAL"@ {
        ElementClass::Neutral
    } else {
        ElementClass::Pending
    }
}

/// What the status of a commit amounts to.
pub open spec fn state_class(state: Seq<char>) -> ElementClass {
    if state == "SUCCESS"@ {
        ElementClass::Passing
    } else if state == "FAILURE"@ || state == "ERROR"@ {
        ElementClass::Failing
    } else if state == "PENDING"@ || state == "EXPECTED"@ {
        ElementClass::Pending
    } else {
        ElementClass::Neutral
    }
}

/// What a check amounts to.
pub open spec fn element_class(el: GhCheckElement) -> ElementClass {
    match el {
        GhCheckElement::CheckRun { status, conclusion } => run_class(
            upper_or_empty(status),
            upper_or_empty(conclusion),
        ),
        GhCheckElement::StatusContext { state } => state_class(upper_or_empty(state)),
        GhCheckElement::Unknown => ElementClass::Neutral,
    }
}

/// Whether a check amounts to a class.
pub open spec fn any_of(elements: Seq<GhCheckElement>, class: ElementClass) -> bool {
    exists|i: int| 0 <= i < elements.len() && element_class(#[trigger] elements[i]) == class
}

/// What all checks amount to: a failure comes before what is pending, and that
/// before a success.
pub open spec fn rollup(elements: Seq<GhCheckElement>) -> CheckStatus {
    if any_of(elements, ElementClass::Failing) {
        CheckStatus::Failing
    } else if any_of(elements, ElementClass::Pending) {
        CheckStatus::Pending
    } else if any_of(elements, ElementClass::Passing) {
        CheckStatus::Passing
    } else {
        CheckStatus::NoChecks
    }
}

/// A text in upper case; empty where there is none.
fn shout(s: &Option<String>) -> (r: String)
    ensures
        r@ == upper_or_empty(*s),
{
    match s {
        Some(t) => text::to_upper(t.as_str()),
        None => text::to_upper(""),
    }
}

/// Tells what a check amounts to.
pub fn classify_element(el: &GhCheckElement) -> (r: ElementClass)
    ensures
        r == element_class(*el),
{
    match el {
        GhCheckElement::CheckRun { status, conclusion } => {
            let status = shout(status);
            if !text::same(status.as_str(), "COMPLETED") {
                return ElementClass::Pending;
            }
            let owned = shout(conclusion);
            let c = owned.as_str();
            if text::same(c, "SUCCESS") {
                ElementClass::Passing
            } else if text::same(c, "FAILURE") || text::same(c, "TIMED_OUT") || text::same(
                c,
                "CANCELLED",
            ) || text::same(c, "ACTION_REQUIRED") || text::same(c, "STARTUP_FAILURE") || text::same(
                c,
                "STALE",
            ) {
                ElementClass::Failing
            } else if text::same(c, "SKIPPED") || text::same(c, "NEUTRAL") {
                ElementClass::Neutral
            } else {
                ElementClass::Pending
            }
        },
        GhCheckElement::StatusContext { state } => {
            let owned = shout(state);
            let s = owned.as_str();
            if text::same(s, "SUCCESS") {
                ElementClass::Passing
            } else if text::same(s, "FAILURE") || text::same(s, "ERROR") {
                ElementClass::Failing
            } else if text::same(s, "PENDING") || text::same(s, "EXPECTED") {
                ElementClass::Pending
            } else {
                ElementClass::Neutral
            }
        },
        GhCheckElement::Unknown => ElementClass::Neutral,
    }
}

/// Reduces the checks of a pull request to one status.
pub fn rollup_check_status(elements: &[GhCheckElement]) -> (r: CheckStatus)
    ensures
        r == rollup(elements@),
{
    let mut any_pending = false;
    let mut any_passing = false;
    for i in 0..elements.len()
        invariant
            forall|j: int|
                0 <= j < i ==> element_class(#[trigger] elements@[j]) != ElementClass::Failing,
            any_pending == any_of(elements@.take(i as int), ElementClass::Pending),
            any_passing == any_of(elements@.take(i as int), ElementClass::Passing),
    {
        let ghost before = elements@.take(i as int);
        let ghost after = elements@.take(i + 1);
        let class = classify_element(&elements[i]);
        proof {
            assert(after[i as int] == elements@[i as int]);
            assert forall|c: ElementClass|
                any_of(after, c) == (any_of(before, c) || class == c) by {
                if any_of(before, c) {
                    let j = choose|j: int|
                        0 <= j < before.len() && element_class(#[trigger] before[j]) == c;
                    assert(after[j] == before[j]);
                }
                if any_of(after, c) {
                    let j = choose|j: int|
                        0 <= j < after.len() && element_class(#[trigger] after[j]) == c;
                    if j < i {
                        assert(before[j] == after[j]);
                    }
                }
            }
        }
        match class {
            ElementClass::Failing => {
                return CheckStatus::Failing;
            },
            ElementClass::Pending => {
                any_pending = true;
            },
            ElementClass::Passing => {
                any_passing = true;
            },
            ElementClass::Neutral => {},
        }
    }
    assert(elements@.take(elements@.len() as int) =~= elements@);
    if any_pending {
        CheckStatus::Pending
    } else if any_passing {
        CheckStatus::Passing
    } else {
        CheckStatus::NoChecks
    }
}

/// A failing check is never masked, whatever the other checks are.
pub proof fn law_failing_dominates(elements: Seq<GhCheckElement>, i: int)
    requires
        0 <= i < elements.len(),
        element_class(elements[i]) == ElementClass::Failing,
    ensures
        rollup(elements) == CheckStatus::Failing,
{
}

/// Checks pass only where one succeeded and none failed or is pending.
pub proof fn law_passing_means_all_passed(elements: Seq<GhCheckElement>)
    requires
        rollup(elements) == CheckStatus::Passing,
    ensures
        any_of(elements, ElementClass::Passing),
        forall|i: int|
            0 <= i < elements.len() ==> element_class(#[trigger] elements[i])
                == ElementClass::Passing || element_class(elements[i]) == ElementClass::Neutral,
{
    assert forall|i: int| 0 <= i < elements.len() implies element_class(#[trigger] elements[i])
        == ElementClass::Passing || element_class(elements[i]) == ElementClass::Neutral by {
        assert(!any_of(elements, ElementClass::Failing));
        assert(!any_of(elements, ElementClass::Pending));
    }
}

/// The order of the checks does not matter, nor how often each is listed.
pub proof fn law_rollup_ignores_order(a: Seq<GhCheckElement>, b: Seq<GhCheckElement>)
    requires
        forall|x: GhCheckElement| a.contains(x) <==> b.contains(x),
    ensures
        rollup(a) == rollup(b),
{
    assert forall|c: ElementClass| any_of(a, c) == any_of(b, c) by {
        if any_of(a, c) {
            let i = choose|i: int| 0 <= i < a.len() && element_class(#[trigger] a[i]) == c;
            assert(a.contains(a[i]));
            let j = choose|j: int| 0 <= j < b.len() && b[j] == a[i];
            assert(element_class(b[j]) == c);
        }
        if any_of(b, c) {
            let i = choose|i: int| 0 <= i < b.len() && element_class(#[trigger] b[i]) == c;
            assert(b.contains(b[i]));
            let j = choose|j: int| 0 <= j < a.len() && a[j] == b[i];
            assert(element_class(a[j]) == c);
        }
    }
}

} // verus!
