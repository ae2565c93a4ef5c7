//! The structured result of a scan, and how several results are combined.
use vstd::prelude::*;

verus! {

/// One place in the code where a rule is broken.
#[derive(Debug, Clone)]
pub struct Violation {
    pub file_path: String,
    pub code_snippet: String,
    pub line_range: String,
    pub explanation: String,
}

/// A finding: a rule that the code breaks, with the places where it does.
#[derive(Debug, Clone)]
pub struct DetectedIssue {
    pub rule_code: String,
    pub brief_description: String,
    pub suggested_alternative: String,
    pub violations: Vec<Violation>,
}

/// The findings of one scan, or of several scans combined.
#[derive(Debug, Clone)]
pub struct Response {
    pub detected_issues: Vec<DetectedIssue>,
}

/// The findings of all `responses`, those of the first response first, each response's
/// findings in their own order.
pub open spec fn all_issues(responses: Seq<Response>) -> Seq<DetectedIssue>
    decreases responses.len(),
{
    if responses.len() == 0 {
        Seq::empty()
    } else {
        responses[0].detected_issues@ + all_issues(responses.drop_first())
    }
}

/// The number of findings over all `responses`.
pub open spec fn total_issue_count(responses: Seq<Response>) -> nat
    decreases responses.len(),
{
    if responses.len() == 0 {
        0
    } else {
        responses[0].detected_issues@.len() + total_issue_count(responses.drop_first())
    }
}

/// The combined findings are as many as the findings of all results together.
pub proof fn lemma_combined_length(responses: Seq<Response>)
    ensures
        all_issues(responses).len() == total_issue_count(responses),
    decreases responses.len(),
{
    if responses.len() > 0 {
        lemma_combined_length(responses.drop_first());
    }
}

/// The findings of the results before result `i`, together with those of result `i`, are
/// no more than all findings.
proof fn lemma_prefix_count_bound(responses: Seq<Response>, i: int)
    requires
        0 <= i < responses.len(),
    ensures
        total_issue_count(responses.take(i)) + responses[i].detected_issues@.len()
            <= total_issue_count(responses),
    decreases responses.len(),
{
    if i > 0 {
        lemma_prefix_count_bound(responses.drop_first(), i - 1);
        assert(responses.take(i).drop_first() =~= responses.drop_first().take(i - 1));
    }
    assert(responses.take(0) =~= Seq::<Response>::empty());
}

/// The combined findings keep the order of the results: the `j`-th finding of result `i`
/// stands right after the findings of the results before `i`.
pub proof fn lemma_combined_order(responses: Seq<Response>, i: int, j: int)
    requires
        0 <= i < responses.len(),
        0 <= j < responses[i].detected_issues@.len(),
    ensures
        all_issues(responses)[total_issue_count(responses.take(i)) + j]
            == responses[i].detected_issues@[j],
    decreases responses.len(),
{
    assert(responses.take(0) =~= Seq::<Response>::empty());
    lemma_combined_length(responses.drop_first());
    if i > 0 {
        let rest = responses.drop_first();
        lemma_combined_order(rest, i - 1, j);
        lemma_prefix_count_bound(rest, i - 1);
        assert(responses.take(i).drop_first() =~= rest.take(i - 1));
    }
}

} // verus!
