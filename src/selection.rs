//! Resolution of a user's rule selection into the active rule set.
use vstd::prelude::*;
use crate::catalog::{
    codes_of_resources, contains_code, default_codes_of, parse_default_rules, RuleCatalog,
    RuleManagerError,
};

verus! {

/// What the user asked for: codes that replace the defaults, codes added to them, and
/// codes removed from the result.
pub struct RuleSelectionConfig {
    pub select: Vec<String>,
    pub extend_select: Vec<String>,
    pub ignore: Vec<String>,
}

/// The outcome of resolving a selection, stated over the codes' characters.
pub enum Resolution {
    /// The active rule codes, in order.
    Active(Seq<Seq<char>>),
    /// The defaults were needed and the default list is empty.
    NoDefaults,
    /// The first candidate code that is not in the catalog.
    Unknown(Seq<char>),
}

/// The codes the selection starts from: `select` when it is not empty, else the defaults.
pub open spec fn base_codes(defaults: Seq<Seq<char>>, select: Seq<Seq<char>>) -> Seq<Seq<char>> {
    if select.len() > 0 {
        select
    } else {
        defaults
    }
}

/// The codes that are validated: the base codes followed by `extend`.
pub open spec fn candidate_codes(
    defaults: Seq<Seq<char>>,
    select: Seq<Seq<char>>,
    extend: Seq<Seq<char>>,
) -> Seq<Seq<char>> {
    base_codes(defaults, select) + extend
}

/// Every code of `codes` is in `known`.
pub open spec fn all_known(codes: Seq<Seq<char>>, known: Set<Seq<char>>) -> bool {
    forall|i: int| 0 <= i < codes.len() ==> known.contains(#[trigger] codes[i])
}

/// `k` is the index of the first code of `codes` that is not in `known`.
pub open spec fn first_unknown_at(codes: Seq<Seq<char>>, known: Set<Seq<char>>, k: int) -> bool {
    &&& 0 <= k < codes.len()
    &&& !known.contains(codes[k])
    &&& forall|j: int| 0 <= j < k ==> known.contains(#[trigger] codes[j])
}

/// The codes of `codes` that `ignore` does not hold, in order.
pub open spec fn kept_codes(codes: Seq<Seq<char>>, ignore: Seq<Seq<char>>) -> Seq<Seq<char>>
    decreases codes.len(),
{
    if codes.len() == 0 {
        Seq::empty()
    } else {
        let before = kept_codes(codes.drop_last(), ignore);
        if ignore.contains(codes.last()) {
            before
        } else {
            before.push(codes.last())
        }
    }
}

/// The active rule set for a selection, given the known codes and the default list.
pub open spec fn resolve(
    known: Set<Seq<char>>,
    defaults: Seq<Seq<char>>,
    select: Seq<Seq<char>>,
    extend: Seq<Seq<char>>,
    ignore: Seq<Seq<char>>,
) -> Resolution {
    let candidates = candidate_codes(defaults, select, extend);
    if select.len() == 0 && defaults.len() == 0 {
        Resolution::NoDefaults
    } else if all_known(candidates, known) {
        Resolution::Active(kept_codes(candidates, ignore))
    } else {
        Resolution::Unknown(candidates[choose|k: int| first_unknown_at(candidates, known, k)])
    }
}

/// The message of the error for an empty default list.
pub open spec fn no_defaults_message() -> Seq<char> {
    "No default rules in file."@
}

/// A copy of `codes`.
pub fn copy_codes(codes: &Vec<String>) -> (r: Vec<String>)
    ensures
        r.deep_view() == codes.deep_view(),
{
    let mut r: Vec<String> = Vec::new();
    append_codes(&mut r, codes);
    assert(r.deep_view() =~= codes.deep_view());
    r
}

/// Appends a copy of each code of `codes` to `dst`.
pub fn append_codes(dst: &mut Vec<String>, codes: &Vec<String>)
    ensures
        final(dst).deep_view() == old(dst).deep_view() + codes.deep_view(),
{
    let ghost start = dst.deep_view();
    let mut i: usize = 0;
    while i < codes.len()
        invariant
            i <= codes@.len(),
            dst.deep_view() == start + codes.deep_view().subrange(0, i as int),
        decreases codes@.len() - i,
    {
        let code = codes[i].clone();
        assert(code@ == codes.deep_view()[i as int]);
        let ghost before = dst.deep_view();
        dst.push(code);
        assert(dst.deep_view() =~= before.push(code@));
        assert(dst.deep_view() =~= start + codes.deep_view().subrange(0, i + 1));
        i = i + 1;
    }
    assert(codes.deep_view().subrange(0, codes@.len() as int) =~= codes.deep_view());
}

/// Resolves selections against the catalog and the default list.
pub struct RuleManager {
    default_rules: Vec<String>,
    valid_rules: RuleCatalog,
}

impl RuleManager {
    /// The codes of the default list.
    pub closed spec fn defaults(&self) -> Seq<Seq<char>> {
        self.default_rules.deep_view()
    }

    /// The codes of the catalog.
    pub closed spec fn known(&self) -> Set<Seq<char>> {
        self.valid_rules@
    }

    /// A manager for the rules whose resources have the given file names, with the
    /// default list held by `default_list`. Fails when there is no rule resource.
    pub fn new(resource_names: &Vec<String>, default_list: &str) -> (r: Result<
        RuleManager,
        RuleManagerError,
    >)
        ensures
            resource_names@.len() == 0 ==> r matches Err(RuleManagerError::NoRulesAvailable),
            resource_names@.len() > 0 ==> r is Ok && r->Ok_0.known() == codes_of_resources(
                resource_names.deep_view(),
            ) && r->Ok_0.defaults() == default_codes_of(default_list@),
    {
        match RuleCatalog::from_resource_names(resource_names) {
            Ok(valid_rules) => {
                let default_rules = parse_default_rules(default_list);
                Ok(RuleManager { default_rules, valid_rules })
            },
            Err(e) => Err(e),
        }
    }

    /// The catalog of known codes.
    pub fn catalog(&self) -> (r: &RuleCatalog)
        ensures
            r@ == self.known(),
    {
        &self.valid_rules
    }

    /// The default codes; fails when the default list is empty.
    pub fn get_default_rules(&self) -> (r: Result<Vec<String>, RuleManagerError>)
        ensures
            self.defaults().len() == 0 ==> (r matches Err(RuleManagerError::DefaultRulesError(m))
                && m@ == no_defaults_message()),
            self.defaults().len() > 0 ==> r is Ok && r->Ok_0.deep_view() == self.defaults(),
    {
        if self.default_rules.len() == 0 {
            let m = String::from_str("No default rules in file.");
            return Err(RuleManagerError::DefaultRulesError(m));
        }
        Ok(copy_codes(&self.default_rules))
    }

    /// The active rule codes for `config`: the base codes (`select`, or the defaults when
    /// `select` is empty) followed by `extend_select`, each checked against the catalog,
    /// then without the codes of `ignore`.
    pub fn finalise_selected_rules(&self, config: &RuleSelectionConfig) -> (r: Result<
        Vec<String>,
        RuleManagerError,
    >)
        ensures
            match resolve(
                self.known(),
                self.defaults(),
                config.select.deep_view(),
                config.extend_select.deep_view(),
                config.ignore.deep_view(),
            ) {
                Resolution::Active(codes) => r is Ok && r->Ok_0.deep_view() == codes,
                Resolution::NoDefaults => r matches Err(RuleManagerError::DefaultRulesError(m))
                    && m@ == no_defaults_message(),
                Resolution::Unknown(code) => r matches Err(RuleManagerError::InvalidRule(c))
                    && c@ == code,
            },
    {
        let ghost known = self.known();
        let ghost candidates = candidate_codes(
            self.defaults(),
            config.select.deep_view(),
            config.extend_select.deep_view(),
        );
        let mut selected: Vec<String> = if config.select.len() == 0 {
            match self.get_default_rules() {
                Ok(d) => d,
                Err(e) => return Err(e),
            }
        } else {
            copy_codes(&config.select)
        };
        append_codes(&mut selected, &config.extend_select);
        assert(!(config.select.deep_view().len() == 0 && self.defaults().len() == 0));
        assert(selected.deep_view() == candidates);

        let mut i: usize = 0;
        while i < selected.len()
            invariant
                i <= selected@.len(),
                selected.deep_view() == candidates,
                known == self.valid_rules@,
                candidates == candidate_codes(
                    self.defaults(),
                    config.select.deep_view(),
                    config.extend_select.deep_view(),
                ),
                !(config.select.deep_view().len() == 0 && self.defaults().len() == 0),
                forall|j: int| 0 <= j < i ==> known.contains(#[trigger] candidates[j]),
            decreases selected@.len() - i,
        {
            if !self.valid_rules.contains(&selected[i]) {
                assert(candidates[i as int] == selected@[i as int]@);
                proof {
                    assert(first_unknown_at(candidates, known, i as int));
                    assert(!all_known(candidates, known));
                    let k = choose|k: int| first_unknown_at(candidates, known, k);
                    if k < i {
                        assert(known.contains(candidates[k]));
                    } else if k > i {
                        assert(known.contains(candidates[i as int]));
                    }
                }
                let code = selected[i].clone();
                assert(code@ == candidates[i as int]);
                return Err(RuleManagerError::InvalidRule(code));
            }
            i = i + 1;
        }
        assert(all_known(candidates, known));

        let mut active: Vec<String> = Vec::new();
        let mut i: usize = 0;
        while i < selected.len()
            invariant
                i <= selected@.len(),
                selected.deep_view() == candidates,
                active.deep_view() == kept_codes(candidates.subrange(0, i as int), config.ignore.deep_view()),
            decreases selected@.len() - i,
        {
            assert(candidates.subrange(0, i + 1).drop_last() =~= candidates.subrange(0, i as int));
            if !contains_code(&config.ignore, &selected[i]) {
                let code = selected[i].clone();
                let ghost before = active.deep_view();
                active.push(code);
                assert(active.deep_view() =~= before.push(code@));
            }
            i = i + 1;
        }
        assert(candidates.subrange(0, candidates.len() as int) =~= candidates);
        Ok(active)
    }

    /// Resolves the selection given as three lists of codes.
    pub fn load_from_cli(
        &self,
        select: Vec<String>,
        extend_select: Vec<String>,
        ignore: Vec<String>,
    ) -> (r: Result<Vec<String>, RuleManagerError>)
        ensures
            match resolve(
                self.known(),
                self.defaults(),
                select.deep_view(),
                extend_select.deep_view(),
                ignore.deep_view(),
            ) {
                Resolution::Active(codes) => r is Ok && r->Ok_0.deep_view() == codes,
                Resolution::NoDefaults => r matches Err(RuleManagerError::DefaultRulesError(m))
                    && m@ == no_defaults_message(),
                Resolution::Unknown(code) => r matches Err(RuleManagerError::InvalidRule(c))
                    && c@ == code,
            },
    {
        let config = RuleSelectionConfig { select, extend_select, ignore };
        self.finalise_selected_rules(&config)
    }
}

/// No code of `ignore` is kept.
pub proof fn lemma_kept_codes_exclude_ignored(codes: Seq<Seq<char>>, ignore: Seq<Seq<char>>)
    ensures
        forall|i: int|
            0 <= i < kept_codes(codes, ignore).len() ==> !ignore.contains(
                #[trigger] kept_codes(codes, ignore)[i],
            ),
    decreases codes.len(),
{
    if codes.len() > 0 {
        lemma_kept_codes_exclude_ignored(codes.drop_last(), ignore);
        let before = kept_codes(codes.drop_last(), ignore);
        assert forall|i: int| 0 <= i < kept_codes(codes, ignore).len() implies !ignore.contains(
            kept_codes(codes, ignore)[i],
        ) by {
            if i < before.len() {
                assert(kept_codes(codes, ignore)[i] == before[i]);
            }
        }
    }
}

/// With an empty `select` and a non-empty default list, the candidates are the default
/// list followed by `extend`; when all of them are known, the active set is those codes
/// without the ignored ones.
pub proof fn lemma_empty_selection_uses_defaults(
    known: Set<Seq<char>>,
    defaults: Seq<Seq<char>>,
    select: Seq<Seq<char>>,
    extend: Seq<Seq<char>>,
    ignore: Seq<Seq<char>>,
)
    requires
        select.len() == 0,
        defaults.len() > 0,
    ensures
        candidate_codes(defaults, select, extend) == defaults + extend,
        all_known(defaults + extend, known) ==> resolve(known, defaults, select, extend, ignore)
            == Resolution::Active(kept_codes(defaults + extend, ignore)),
{
}

/// With a non-empty `select`, the candidates are `select` followed by `extend`, and the
/// default list is not consulted: any two default lists give the same outcome.
pub proof fn lemma_selection_replaces_defaults(
    known: Set<Seq<char>>,
    defaults: Seq<Seq<char>>,
    other_defaults: Seq<Seq<char>>,
    select: Seq<Seq<char>>,
    extend: Seq<Seq<char>>,
    ignore: Seq<Seq<char>>,
)
    requires
        select.len() > 0,
    ensures
        candidate_codes(defaults, select, extend) == select + extend,
        resolve(known, defaults, select, extend, ignore) == resolve(
            known,
            other_defaults,
            select,
            extend,
            ignore,
        ),
        all_known(select + extend, known) ==> resolve(known, defaults, select, extend, ignore)
            == Resolution::Active(kept_codes(select + extend, ignore)),
{
}

/// A code that is selected or added, unknown to the catalog and also ignored still makes
/// resolution fail with an unknown code: ignoring does not suppress validation. (When
/// `select` and the default list are both empty, the empty default list is reported
/// first.)
pub proof fn lemma_ignored_unknown_code_still_rejected(
    known: Set<Seq<char>>,
    defaults: Seq<Seq<char>>,
    select: Seq<Seq<char>>,
    extend: Seq<Seq<char>>,
    ignore: Seq<Seq<char>>,
    code: Seq<char>,
)
    requires
        ignore.contains(code),
        select.contains(code) || extend.contains(code),
        !known.contains(code),
        select.len() > 0 || defaults.len() > 0,
    ensures
        resolve(known, defaults, select, extend, ignore) is Unknown,
{
    let candidates = candidate_codes(defaults, select, extend);
    if select.contains(code) {
        let i = choose|i: int| 0 <= i < select.len() && select[i] == code;
        assert(candidates[i] == code);
    } else {
        let i = choose|i: int| 0 <= i < extend.len() && extend[i] == code;
        assert(candidates[base_codes(defaults, select).len() + i] == code);
    }
    assert(!all_known(candidates, known));
}

/// No code of `ignore` is in a resolved active rule set.
pub proof fn lemma_ignored_codes_not_active(
    known: Set<Seq<char>>,
    defaults: Seq<Seq<char>>,
    select: Seq<Seq<char>>,
    extend: Seq<Seq<char>>,
    ignore: Seq<Seq<char>>,
)
    ensures
        resolve(known, defaults, select, extend, ignore) matches Resolution::Active(codes)
            ==> forall|i: int| 0 <= i < codes.len() ==> !ignore.contains(#[trigger] codes[i]),
{
    lemma_kept_codes_exclude_ignored(candidate_codes(defaults, select, extend), ignore);
}

/// Resolving the same selection twice, against the same catalog and default list, gives
/// the same outcome: the same active codes in the same order, or the same failure.
pub proof fn lemma_resolution_is_deterministic(
    known: Set<Seq<char>>,
    defaults: Seq<Seq<char>>,
    first: RuleSelectionConfig,
    second: RuleSelectionConfig,
)
    requires
        first.select.deep_view() == second.select.deep_view(),
        first.extend_select.deep_view() == second.extend_select.deep_view(),
        first.ignore.deep_view() == second.ignore.deep_view(),
    ensures
        resolve(
            known,
            defaults,
            first.select.deep_view(),
            first.extend_select.deep_view(),
            first.ignore.deep_view(),
        ) == resolve(
            known,
            defaults,
            second.select.deep_view(),
            second.extend_select.deep_view(),
            second.ignore.deep_view(),
        ),
{
}

} // verus!
