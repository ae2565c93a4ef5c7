//! Rules: named review criteria with examples, and ordered sets of them.
use vstd::prelude::*;

verus! {

/// A pair of examples: code that breaks a rule, and a better version of it.
#[derive(Debug, Clone)]
pub struct RuleExample {
    pub violation: String,
    pub better: String,
}

/// A review criterion. Its code is that of the resource it was loaded from.
#[derive(Debug, Clone)]
pub struct Rule {
    pub rule_code: String,
    pub name: String,
    pub description: String,
    pub risk_if_violated: String,
    pub examples: Vec<RuleExample>,
}

/// The markdown lines of one example.
pub open spec fn example_markdown(e: RuleExample) -> Seq<char> {
    "- Violation: "@ + e.violation@ + "\n  Better: "@ + e.better@ + "\n"@
}

/// The markdown lines of the first `n` examples.
pub open spec fn examples_markdown(examples: Seq<RuleExample>, n: int) -> Seq<char>
    decreases n,
{
    if n <= 0 {
        Seq::empty()
    } else {
        examples_markdown(examples, n - 1) + example_markdown(examples[n - 1])
    }
}

/// The markdown text of a rule: a heading with its code and name, its description, the
/// risk of breaking it, and one entry per example.
pub open spec fn rule_markdown(rule: Rule) -> Seq<char> {
    "## "@ + rule.rule_code@ + " - "@ + rule.name@ + "\n*"@ + rule.description@
        + "*\n**Risk if violated:** "@ + rule.risk_if_violated@ + "\n"@ + examples_markdown(
        rule.examples@,
        rule.examples@.len() as int,
    )
}

impl Rule {
    /// A rule with the given fields.
    pub fn new(
        rule_code: String,
        name: String,
        description: String,
        risk_if_violated: String,
        examples: Vec<RuleExample>,
    ) -> (r: Rule)
        ensures
            r.rule_code == rule_code,
            r.name == name,
            r.description == description,
            r.risk_if_violated == risk_if_violated,
            r.examples == examples,
    {
        Rule { rule_code, name, description, risk_if_violated, examples }
    }

    /// The rule as markdown, as it is shown in a prompt.
    pub fn to_markdown(&self) -> (r: String)
        ensures
            r@ == rule_markdown(*self),
    {
        let mut s = String::from_str("## ");
        s.append(self.rule_code.as_str());
        s.append(" - ");
        s.append(self.name.as_str());
        s.append("\n*");
        s.append(self.description.as_str());
        s.append("*\n**Risk if violated:** ");
        s.append(self.risk_if_violated.as_str());
        s.append("\n");
        let ghost head = s@;
        let mut i: usize = 0;
        while i < self.examples.len()
            invariant
                i <= self.examples@.len(),
                s@ == head + examples_markdown(self.examples@, i as int),
            decreases self.examples@.len() - i,
        {
            let e = &self.examples[i];
            let ghost before = s@;
            s.append("- Violation: ");
            s.append(e.violation.as_str());
            s.append("\n  Better: ");
            s.append(e.better.as_str());
            s.append("\n");
            assert(s@ =~= before + example_markdown(self.examples@[i as int]));
            i = i + 1;
        }
        assert(s@ =~= rule_markdown(*self));
        s
    }
}

/// An ordered collection of rules.
pub struct Ruleset {
    rules: Vec<Rule>,
}

impl View for Ruleset {
    type V = Seq<Rule>;

    closed spec fn view(&self) -> Seq<Rule> {
        self.rules@
    }
}

/// The markdown text of the first `n` rules, each after a separator line.
pub open spec fn rules_markdown(rules: Seq<Rule>, n: int) -> Seq<char>
    decreases n,
{
    if n <= 0 {
        Seq::empty()
    } else {
        rules_markdown(rules, n - 1) + "\n---\n"@ + rule_markdown(rules[n - 1]) + "\n"@
    }
}

/// The markdown text of a ruleset: a heading, then each rule after a separator line.
pub open spec fn ruleset_markdown(rules: Seq<Rule>) -> Seq<char> {
    "# Rules\n\n"@ + rules_markdown(rules, rules.len() as int)
}

impl Ruleset {
    /// An empty ruleset.
    pub fn new() -> (r: Ruleset)
        ensures
            r@ == Seq::<Rule>::empty(),
    {
        Ruleset { rules: Vec::new() }
    }

    /// Adds `rule` after the rules already held.
    pub fn add_rule(&mut self, rule: Rule)
        ensures
            final(self)@ == old(self)@.push(rule),
    {
        self.rules.push(rule);
    }

    /// The number of rules held.
    pub fn len(&self) -> (r: usize)
        ensures
            r == self@.len(),
    {
        self.rules.len()
    }

    /// The rule at `index`.
    pub fn get(&self, index: usize) -> (r: &Rule)
        requires
            index < self@.len(),
        ensures
            *r == self@[index as int],
    {
        &self.rules[index]
    }

    /// The ruleset as markdown, as it is shown in a prompt.
    pub fn to_markdown(&self) -> (r: String)
        ensures
            r@ == ruleset_markdown(self@),
    {
        let mut s = String::from_str("# Rules\n\n");
        let ghost head = s@;
        let mut i: usize = 0;
        while i < self.rules.len()
            invariant
                i <= self@.len(),
                s@ == head + rules_markdown(self@, i as int),
            decreases self@.len() - i,
        {
            let text = self.rules[i].to_markdown();
            let ghost before = s@;
            s.append("\n---\n");
            s.append(text.as_str());
            s.append("\n");
            assert(s@ =~= before + "\n---\n"@ + rule_markdown(self@[i as int]) + "\n"@);
            i = i + 1;
        }
        s
    }
}

} // verus!
