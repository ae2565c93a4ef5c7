//! Scanning backends: their registry, the plan of a scan, and how its outcomes become
//! one result.
use vstd::prelude::*;
use crate::response::{all_issues, DetectedIssue, Response};
use crate::text::{all_ascii, is_ascii_lowercase_of, lower_of, lowercase, prefixed, str_eq};

verus! {

/// The scanning backends a user can choose.
#[derive(Debug, Clone, Copy, Hash, PartialEq, Eq, Structural)]
pub enum AvailableScanner {
    OpenAi,
}

/// The language-model providers a user can name.
#[derive(Debug, Clone, Copy, PartialEq, Eq, Structural)]
pub enum LlmProvider {
    OpenAi,
}

/// The name shared by the OpenAI scanner and provider.
pub open spec fn is_openai_name(name: Seq<char>) -> bool {
    name == "openai"@
}

impl AvailableScanner {
    /// The scanner named by `s`, ignoring case.
    pub fn from_name(s: &str) -> (r: Result<AvailableScanner, String>)
        ensures
            all_ascii(s@) ==> is_ascii_lowercase_of(lower_of(s@), s@),
            is_openai_name(lower_of(s@)) ==> r == Ok::<AvailableScanner, String>(
                AvailableScanner::OpenAi,
            ),
            !is_openai_name(lower_of(s@)) ==> r is Err && r->Err_0@ == "Unknown scanner: "@ + s@,
    {
        let lowered = lowercase(s);
        if str_eq(lowered.as_str(), "openai") {
            Ok(AvailableScanner::OpenAi)
        } else {
            Err(prefixed("Unknown scanner: ", s))
        }
    }
}

impl std::str::FromStr for AvailableScanner {
    type Err = String;

    fn from_str(s: &str) -> (r: Result<AvailableScanner, String>)
        ensures
            all_ascii(s@) ==> is_ascii_lowercase_of(lower_of(s@), s@),
            is_openai_name(lower_of(s@)) ==> r == Ok::<AvailableScanner, String>(
                AvailableScanner::OpenAi,
            ),
            !is_openai_name(lower_of(s@)) ==> r is Err && r->Err_0@ == "Unknown scanner: "@ + s@,
    {
        AvailableScanner::from_name(s)
    }
}

impl LlmProvider {
    /// The provider named by `s`, ignoring case.
    pub fn from_name(s: &str) -> (r: Result<LlmProvider, String>)
        ensures
            all_ascii(s@) ==> is_ascii_lowercase_of(lower_of(s@), s@),
            is_openai_name(lower_of(s@)) ==> r == Ok::<LlmProvider, String>(LlmProvider::OpenAi),
            !is_openai_name(lower_of(s@)) ==> r is Err && r->Err_0@ == "Unregistered Provider: "@
                + s@,
    {
        let lowered = lowercase(s);
        if str_eq(lowered.as_str(), "openai") {
            Ok(LlmProvider::OpenAi)
        } else {
            Err(prefixed("Unregistered Provider: ", s))
        }
    }
}

impl std::str::FromStr for LlmProvider {
    type Err = String;

    fn from_str(s: &str) -> (r: Result<LlmProvider, String>)
        ensures
            all_ascii(s@) ==> is_ascii_lowercase_of(lower_of(s@), s@),
            is_openai_name(lower_of(s@)) ==> r == Ok::<LlmProvider, String>(LlmProvider::OpenAi),
            !is_openai_name(lower_of(s@)) ==> r is Err && r->Err_0@ == "Unregistered Provider: "@
                + s@,
    {
        LlmProvider::from_name(s)
    }
}

/// Why one call to a scanning backend failed.
pub enum ScannerError {
    /// The request to the backend failed; the message says why.
    ApiRequestFailed(String),
    /// The backend answered with no content.
    EmptyResponse,
    /// The content did not parse as a scan result; the message says why.
    JsonParseError(String),
}

/// Why a scan failed.
pub enum ScannerManagerError {
    /// The backend client could not be set up; the message says why.
    OpenAiClientError(String),
    /// The chosen scanner is not registered.
    ScannerNotFound,
    /// A call to the scanner failed.
    ScannerError(ScannerError),
}

/// The content of a backend's answer: that of its first choice. Fails with
/// `EmptyResponse` when there is no choice or the first one has no content.
pub fn first_choice_content(contents: Vec<Option<String>>) -> (r: Result<String, ScannerError>)
    ensures
        contents@.len() > 0 && contents@[0] is Some ==> r == Ok::<String, ScannerError>(
            contents@[0]->0,
        ),
        !(contents@.len() > 0 && contents@[0] is Some) ==> r matches Err(
            ScannerError::EmptyResponse,
        ),
{
    let mut contents = contents;
    if contents.len() == 0 {
        return Err(ScannerError::EmptyResponse);
    }
    match contents.remove(0) {
        Some(c) => Ok(c),
        None => Err(ScannerError::EmptyResponse),
    }
}

/// How many identical calls a scan makes.
#[derive(Debug, Clone, Copy, PartialEq, Eq, Structural)]
pub enum ScanMode {
    /// One call.
    Single,
    /// The given number of concurrent calls, whose findings are combined.
    Consensus(usize),
}

/// The number of calls of a consensus scan unless another is chosen.
pub const DEFAULT_CONSENSUS_CALLS: usize = 3;

impl ScanMode {
    /// The mode for the production flag: consensus with the default number of calls when
    /// set, else a single call.
    pub fn from_production_flag(production_mode: bool) -> (r: ScanMode)
        ensures
            production_mode ==> r == ScanMode::Consensus(DEFAULT_CONSENSUS_CALLS),
            !production_mode ==> r == ScanMode::Single,
    {
        if production_mode {
            ScanMode::Consensus(DEFAULT_CONSENSUS_CALLS)
        } else {
            ScanMode::Single
        }
    }
}

/// The number of calls that `mode` makes.
pub open spec fn call_count(mode: ScanMode) -> nat {
    match mode {
        ScanMode::Single => 1,
        ScanMode::Consensus(k) => k as nat,
    }
}

/// What a scan is to do: which scanner to call, how many times, and whether to advise
/// the user that consensus scanning is available.
pub struct ScanPlan {
    pub scanner: AvailableScanner,
    pub calls: usize,
    pub advise_consensus: bool,
}

/// The responses of outcomes that all succeeded.
pub open spec fn successes(outcomes: Seq<Result<Response, ScannerError>>) -> Seq<Response> {
    outcomes.map_values(|o: Result<Response, ScannerError>| o->Ok_0)
}

/// `k` is the index of the first failed outcome.
pub open spec fn first_failure_at(outcomes: Seq<Result<Response, ScannerError>>, k: int) -> bool {
    &&& 0 <= k < outcomes.len()
    &&& outcomes[k] is Err
    &&& forall|j: int| 0 <= j < k ==> (#[trigger] outcomes[j]) is Ok
}

/// The registry of scanning backends.
pub struct ScannerManager {
    scanners: Vec<AvailableScanner>,
}

impl View for ScannerManager {
    type V = Seq<AvailableScanner>;

    closed spec fn view(&self) -> Seq<AvailableScanner> {
        self.scanners@
    }
}

impl ScannerManager {
    /// A registry with the OpenAI scanner.
    pub fn new() -> (r: ScannerManager)
        ensures
            r@ == seq![AvailableScanner::OpenAi],
    {
        let mut scanners: Vec<AvailableScanner> = Vec::new();
        scanners.push(AvailableScanner::OpenAi);
        ScannerManager { scanners }
    }

    /// Whether `scanner` is registered.
    pub fn is_registered(&self, scanner: AvailableScanner) -> (r: bool)
        ensures
            r == self@.contains(scanner),
    {
        let mut i: usize = 0;
        while i < self.scanners.len()
            invariant
                i <= self@.len(),
                forall|j: int| 0 <= j < i ==> self@[j] != scanner,
            decreases self@.len() - i,
        {
            if self.scanners[i] == scanner {
                return true;
            }
            i = i + 1;
        }
        false
    }

    /// The plan of a scan with `scanner` in `mode`. Fails with `ScannerNotFound` when the
    /// scanner is not registered; a single-call scan advises the user of consensus mode.
    pub fn plan_scan(&self, scanner: AvailableScanner, mode: ScanMode) -> (r: Result<
        ScanPlan,
        ScannerManagerError,
    >)
        ensures
            !self@.contains(scanner) ==> r matches Err(ScannerManagerError::ScannerNotFound),
            self@.contains(scanner) ==> (r matches Ok(plan) && plan.scanner == scanner
                && plan.calls == call_count(mode) && plan.advise_consensus == (mode
                == ScanMode::Single)),
    {
        if !self.is_registered(scanner) {
            return Err(ScannerManagerError::ScannerNotFound);
        }
        match mode {
            ScanMode::Single => Ok(ScanPlan { scanner, calls: 1, advise_consensus: true }),
            ScanMode::Consensus(k) => Ok(ScanPlan { scanner, calls: k, advise_consensus: false }),
        }
    }

    /// One response holding the findings of all `responses`, in the order the responses
    /// come, each response's findings in their own order; nothing is merged or dropped.
    pub fn combine_responses(&self, responses: Vec<Response>) -> (r: Response)
        ensures
            r.detected_issues@ == all_issues(responses@),
    {
        let ghost original = responses@;
        let mut rest = responses;
        let mut all: Vec<DetectedIssue> = Vec::new();
        while rest.len() > 0
            invariant
                all@ + all_issues(rest@) == all_issues(original),
            decreases rest@.len(),
        {
            let ghost before = rest@;
            let mut response = rest.remove(0);
            assert(rest@ =~= before.drop_first());
            let ghost taken = all@;
            all.append(&mut response.detected_issues);
            assert(all@ + all_issues(rest@) =~= taken + all_issues(before));
        }
        assert(all@ + all_issues(rest@) =~= all@);
        Response { detected_issues: all }
    }

    /// The result of a scan from the outcomes of its calls, in the order the calls were
    /// issued: the first failure, if any call failed, else all findings combined.
    pub fn finish_scan(&self, outcomes: Vec<Result<Response, ScannerError>>) -> (r: Result<
        Response,
        ScannerManagerError,
    >)
        ensures
            (exists|k: int| 0 <= k < outcomes@.len() && (#[trigger] outcomes@[k]) is Err) ==> r is Err,
            forall|k: int|
                #![trigger first_failure_at(outcomes@, k)]
                first_failure_at(outcomes@, k) ==> r == Err::<Response, ScannerManagerError>(
                    ScannerManagerError::ScannerError(outcomes@[k]->Err_0),
                ),
            (forall|k: int| 0 <= k < outcomes@.len() ==> (#[trigger] outcomes@[k]) is Ok) ==> (r matches Ok(
                response) && response.detected_issues@ == all_issues(successes(outcomes@))),
    {
        let ghost original = outcomes@;
        let mut i: usize = 0;
        while i < outcomes.len()
            invariant
                i <= outcomes@.len(),
                outcomes@ == original,
                forall|j: int| 0 <= j < i ==> (#[trigger] original[j]) is Ok,
            decreases outcomes@.len() - i,
        {
            if outcomes[i].is_err() {
                let mut outcomes = outcomes;
                let failed = outcomes.remove(i);
                proof {
                    assert(first_failure_at(original, i as int));
                    assert forall|k: int| first_failure_at(original, k) implies k == i by {
                        if k < i {
                            assert(original[k] is Ok);
                        } else if k > i {
                            assert(original[i as int] is Ok);
                        }
                    }
                }
                return match failed {
                    Err(e) => Err(ScannerManagerError::ScannerError(e)),
                    Ok(_) => Err(ScannerManagerError::ScannerNotFound),
                };
            }
            i = i + 1;
        }
        let mut rest = outcomes;
        let mut responses: Vec<Response> = Vec::new();
        while rest.len() > 0
            invariant
                forall|j: int| 0 <= j < rest@.len() ==> (#[trigger] rest@[j]) is Ok,
                responses@ + successes(rest@) == successes(original),
            decreases rest@.len(),
        {
            let ghost before = rest@;
            let outcome = rest.remove(0);
            assert(rest@ =~= before.drop_first());
            assert(before[0] is Ok);
            let ghost taken = responses@;
            match outcome {
                Ok(response) => {
                    responses.push(response);
                },
                Err(_) => {},
            }
            assert(responses@ + successes(rest@) =~= taken + successes(before));
        }
        assert(responses@ + successes(rest@) =~= responses@);
        assert(forall|k: int| 0 <= k < original.len() ==> (#[trigger] original[k]) is Ok);
        assert(forall|k: int| !first_failure_at(original, k));
        Ok(self.combine_responses(responses))
    }
}

/// A scan whose calls all succeed has as many findings as its results together, and
/// keeps the order in which the calls were issued.
pub proof fn lemma_consensus_aggregation(outcomes: Seq<Result<Response, ScannerError>>, i: int, j: int)
    requires
        forall|k: int| 0 <= k < outcomes.len() ==> (#[trigger] outcomes[k]) is Ok,
        0 <= i < outcomes.len(),
        0 <= j < outcomes[i]->Ok_0.detected_issues@.len(),
    ensures
        all_issues(successes(outcomes)).len() == crate::response::total_issue_count(
            successes(outcomes),
        ),
        all_issues(successes(outcomes))[crate::response::total_issue_count(
            successes(outcomes).take(i),
        ) + j] == outcomes[i]->Ok_0.detected_issues@[j],
{
    crate::response::lemma_combined_length(successes(outcomes));
    crate::response::lemma_combined_order(successes(outcomes), i, j);
}

} // verus!
