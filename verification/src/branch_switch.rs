//! The choice of a branch to switch to.

use vstd::prelude::*;
use vstd::string::*;
use crate::branch::{
    detect_base_branch, get_current_branch, get_local_branches, get_recent_branches,
    is_branch_merged, merged_or_default,
};
use crate::branch_delete::{branch_label, candidate_names, is_neither, label_of, others};
use crate::error::Error;
use crate::text::{
    contains, contains_text, first_word, first_word_of, is_whitespace, lemma_leading,
};

verus! {

/// Which branches are offered.
#[derive(Debug, Clone, PartialEq, Eq)]
pub struct SwitchOptions {
    /// Offer only the branches whose name holds this text.
    pub branch_pattern: Option<String>,
    /// Offer the branches that were visited, newest first, in place of all.
    pub recent: bool,
    /// Offer only merged branches.
    pub merged: bool,
    /// Offer only branches that are not merged.
    pub no_merged: bool,
}

/// A branch that is offered, and how it is shown.
#[derive(Debug, Clone, PartialEq, Eq)]
pub struct Choice {
    pub name: String,
    pub label: String,
}

/// What a switch found in a repository.
#[derive(Debug, Clone, PartialEq, Eq)]
pub struct Offer {
    pub current: String,
    pub choices: Vec<Choice>,
}

/// Whether a name holds a pattern.
pub open spec fn holds(pattern: Seq<char>) -> spec_fn(Seq<char>) -> bool {
    |name: Seq<char>| contains_text(name, pattern)
}

/// The names that hold the pattern, in their order.
pub open spec fn matching(names: Seq<Seq<char>>, pattern: Seq<char>) -> Seq<Seq<char>> {
    names.filter(holds(pattern))
}

/// The names that pass a filter on the merge status, in their order: those
/// whose answer, at the same place, passes.
pub open spec fn passing(names: Seq<Seq<char>>, answers: Seq<Result<bool, Error>>, merged_wanted: bool) -> Seq<
    Seq<char>,
>
    decreases names.len(),
{
    if names.len() == 0 {
        Seq::empty()
    } else {
        let earlier = passing(names.drop_last(), answers, merged_wanted);
        let at = names.len() - 1;
        if at < answers.len() && passes(answers[at], merged_wanted) {
            earlier.push(names.last())
        } else {
            earlier
        }
    }
}

/// The names as choices: each with its label, marked as merged where the answer
/// at the same place says so.
pub open spec fn labelled(names: Seq<Seq<char>>, merged: Seq<bool>) -> Seq<(Seq<char>, Seq<char>)> {
    Seq::new(names.len(), |i: int| (names[i], label_of(names[i], i < merged.len() && merged[i])))
}

/// What a `Vec` of choices stands for: names and labels.
pub open spec fn choices_of(choices: Seq<Choice>) -> Seq<(Seq<char>, Seq<char>)> {
    Seq::new(choices.len(), |i: int| (choices[i].name@, choices[i].label@))
}

/// The choices of a switch, from the branches, the answers of the backend to
/// whether each branch that holds the pattern is merged into the base, and its
/// answers for the labels.
pub open spec fn offer_for(
    branches: Seq<Seq<char>>,
    pattern: Option<Seq<char>>,
    filtered: bool,
    merged_wanted: bool,
    answers: Seq<Result<bool, Error>>,
    current: Seq<char>,
    merged: Seq<bool>,
) -> Seq<(Seq<char>, Seq<char>)> {
    let matched = match pattern {
        Some(p) => matching(branches, p),
        None => branches,
    };
    let passed = if filtered {
        passing(matched, answers, merged_wanted)
    } else {
        matched
    };
    labelled(others(passed, current, current), merged)
}

/// Whether the branches are filtered by their merge status.
pub open spec fn is_filtered(options: SwitchOptions) -> bool {
    options.merged || options.no_merged
}

/// What an offer holds: the choices that follow from some branches and some
/// answers of the backend.
pub open spec fn offered(offer: Offer, options: SwitchOptions) -> bool {
    exists|branches: Seq<Seq<char>>, answers: Seq<Result<bool, Error>>, merged: Seq<bool>|
        choices_of(offer.choices@) == #[trigger] offer_for(
            branches,
            options.branch_pattern.deep_view(),
            is_filtered(options),
            options.merged,
            answers,
            offer.current@,
            merged,
        )
}

/// Whether a branch is offered under a filter on the merge status: only where
/// the backend gave an answer, and the answer is the one asked for.
pub open spec fn passes(answer: Result<bool, Error>, merged_wanted: bool) -> bool {
    match answer {
        Ok(merged) => merged == merged_wanted,
        Err(_) => false,
    }
}

/// The branches whose name holds a pattern.
pub fn filter_by_pattern(names: &Vec<String>, pattern: &str) -> (r: Vec<String>)
    ensures
        r.deep_view() == matching(names.deep_view(), pattern@),
{
    let mut out: Vec<String> = Vec::new();
    let mut i: usize = 0;
    proof {
        reveal(Seq::filter);
        assert(out.deep_view() =~= matching(names.deep_view().take(0), pattern@));
    }
    while i < names.len()
        invariant
            i <= names.len(),
            out.deep_view() == matching(names.deep_view().take(i as int), pattern@),
        decreases names.len() - i,
    {
        proof {
            let seen = names.deep_view().take(i as int);
            assert(names.deep_view().take(i + 1) =~= seen.push(names[i as int]@));
            seen.lemma_filter_push(names[i as int]@, holds(pattern@));
        }
        if contains(names[i].as_str(), pattern) {
            let ghost before = out.deep_view();
            out.push(names[i].clone());
            assert(out.deep_view() =~= before.push(names[i as int]@));
        }
        i += 1;
    }
    assert(names.deep_view().take(names.len() as int) =~= names.deep_view());
    out
}

/// Whether a branch is offered under a filter on the merge status.
pub fn passes_filter(answer: &Result<bool, Error>, merged_wanted: bool) -> (r: bool)
    ensures
        r == passes(*answer, merged_wanted),
{
    match answer {
        Ok(merged) => *merged == merged_wanted,
        Err(_) => false,
    }
}

/// The branches that pass the filter on the merge status, in their order.
pub fn keep_passing(names: &Vec<String>, answers: &Vec<Result<bool, Error>>, merged_wanted: bool) -> (r:
    Vec<String>)
    ensures
        r.deep_view() == passing(names.deep_view(), answers@, merged_wanted),
{
    let mut out: Vec<String> = Vec::new();
    let mut i: usize = 0;
    while i < names.len()
        invariant
            i <= names.len(),
            out.deep_view() == passing(names.deep_view().take(i as int), answers@, merged_wanted),
        decreases names.len() - i,
    {
        assert(names.deep_view().take(i + 1).drop_last() =~= names.deep_view().take(i as int));
        assert(names.deep_view().take(i + 1).last() == names[i as int]@);
        if i < answers.len() && passes_filter(&answers[i], merged_wanted) {
            let ghost before = out.deep_view();
            out.push(names[i].clone());
            assert(out.deep_view() =~= before.push(names[i as int]@));
        }
        i += 1;
    }
    assert(names.deep_view().take(names.len() as int) =~= names.deep_view());
    out
}

/// The branches as choices, each with its label.
pub fn label_choices(names: &Vec<String>, merged: &Vec<bool>) -> (r: Vec<Choice>)
    ensures
        choices_of(r@) == labelled(names.deep_view(), merged@),
{
    let mut choices: Vec<Choice> = Vec::new();
    let mut i: usize = 0;
    while i < names.len()
        invariant
            i <= names.len(),
            choices.len() == i,
            forall|k: int|
                0 <= k < i ==> (#[trigger] choices[k]).name@ == names[k]@ && choices[k].label@
                    == label_of(names[k]@, k < merged.len() && merged[k]),
        decreases names.len() - i,
    {
        let is_merged = i < merged.len() && merged[i];
        let name = names[i].clone();
        let label = branch_label(name.as_str(), is_merged);
        choices.push(Choice { name, label });
        i += 1;
    }
    assert(choices_of(choices@) =~= labelled(names.deep_view(), merged@));
    choices
}

/// The branch that a label stands for: its first word.
pub fn branch_of_label(label: &str) -> (r: Option<String>)
    ensures
        r.deep_view() == first_word(label@),
{
    first_word_of(label)
}

/// A label leads back to its branch: the first word of the label of a branch
/// is its name, where the name is not empty and holds no white space.
pub proof fn lemma_label_names_branch(name: Seq<char>, merged: bool)
    requires
        name.len() > 0,
        forall|i: int| 0 <= i < name.len() ==> !is_whitespace(#[trigger] name[i]),
    ensures
        first_word(label_of(name, merged)) == Some(name),
{
    reveal_strlit(" [merged]");
    let label = label_of(name, merged);
    assert(label[0] == name[0]);
    lemma_leading(label, true, 0);
    assert(label.skip(0) =~= label);
    assert forall|j: int| 0 <= j < name.len() implies !is_whitespace(#[trigger] label[j]) by {
        assert(label[j] == name[j]);
    }
    if merged {
        assert(label[name.len() as int] == ' ');
    }
    lemma_leading(label, false, name.len() as int);
    assert(label.subrange(0, name.len() as int) =~= name);
}

/// Every choice of an offer is a branch other than the current one, under its
/// own label.
pub proof fn lemma_offer(
    branches: Seq<Seq<char>>,
    pattern: Option<Seq<char>>,
    filtered: bool,
    wanted: bool,
    answers: Seq<Result<bool, Error>>,
    current: Seq<char>,
    merged: Seq<bool>,
    k: int,
)
    requires
        0 <= k < offer_for(branches, pattern, filtered, wanted, answers, current, merged).len(),
    ensures
        offer_for(branches, pattern, filtered, wanted, answers, current, merged)[k].0 != current,
        offer_for(branches, pattern, filtered, wanted, answers, current, merged)[k].1 == label_of(
            offer_for(branches, pattern, filtered, wanted, answers, current, merged)[k].0,
            k < merged.len() && merged[k],
        ),
{
    let matched = match pattern {
        Some(p) => matching(branches, p),
        None => branches,
    };
    let passed = if filtered {
        passing(matched, answers, wanted)
    } else {
        matched
    };
    passed.lemma_filter_pred(is_neither(current, current), k);
}

/// The branches that are offered for a switch, each with its label.
///
/// The branches are the local ones, or the ones that were visited; of these
/// the ones that hold the pattern, that pass the filter on the merge status,
/// and that are not the current branch. Each label is the label of its branch,
/// marked as merged only where the backend said so.
pub fn switch_choices(repo: &git2::Repository, options: &SwitchOptions) -> (r: Result<Offer, Error>)
    ensures
        r matches Ok(offer) ==> offered(offer, *options),
        r matches Err(e) ==> e is Git || e is DetachedHead || (is_filtered(*options) && e
            == Error::BaseBranchNotFound),
{
    let current = get_current_branch(repo)?;
    let branches = if options.recent {
        get_recent_branches(repo)?
    } else {
        get_local_branches(repo)?
    };
    let matched = match &options.branch_pattern {
        Some(pattern) => filter_by_pattern(&branches, pattern.as_str()),
        None => copy_names(&branches),
    };
    let filtered = options.merged || options.no_merged;
    let mut answers: Vec<Result<bool, Error>> = Vec::new();
    if filtered {
        let base = detect_base_branch(repo)?;
        let mut i: usize = 0;
        while i < matched.len()
            invariant
                i <= matched.len(),
            decreases matched.len() - i,
        {
            answers.push(is_branch_merged(repo, matched[i].as_str(), base.as_str()));
            i += 1;
        }
    }
    let passed = if filtered {
        keep_passing(&matched, &answers, options.merged)
    } else {
        matched
    };
    let names = candidate_names(&passed, current.as_str(), current.as_str());
    let base = detect_base_branch(repo);
    let mut merged: Vec<bool> = Vec::new();
    let mut k: usize = 0;
    while k < names.len()
        invariant
            k <= names.len(),
        decreases names.len() - k,
    {
        let answer = match &base {
            Ok(base_name) => merged_or_default(
                &is_branch_merged(repo, names[k].as_str(), base_name.as_str()),
            ),
            Err(_) => false,
        };
        merged.push(answer);
        k += 1;
    }
    let choices = label_choices(&names, &merged);
    let offer = Offer { current, choices };
    assert(choices_of(offer.choices@) == offer_for(
        branches.deep_view(),
        options.branch_pattern.deep_view(),
        is_filtered(*options),
        options.merged,
        answers@,
        offer.current@,
        merged@,
    ));
    Ok(offer)
}

/// A copy of a list of names.
fn copy_names(names: &Vec<String>) -> (r: Vec<String>)
    ensures
        r.deep_view() == names.deep_view(),
{
    let mut out: Vec<String> = Vec::new();
    let mut i: usize = 0;
    while i < names.len()
        invariant
            i <= names.len(),
            out.len() == i,
            forall|k: int| 0 <= k < i ==> out@[k]@ == names@[k]@,
        decreases names.len() - i,
    {
        out.push(names[i].clone());
        i += 1;
    }
    assert(out.deep_view() =~= names.deep_view());
    out
}

} // verus!
