//! Static-analysis rules over Soroban contract source and the registry that runs them.
use vstd::prelude::*;

pub mod arithmetic_overflow;
pub mod auth_gap;
pub mod deprecated_host_fns;
pub mod unhandled_result;

verus! {

/// How serious a finding is.
#[derive(Debug, Clone, Copy, PartialEq, Eq, Structural)]
pub enum Severity {
    Info,
    Warning,
    Error,
}

impl Default for Severity {
    fn default() -> (r: Self)
        ensures
            r == Severity::Info,
    {
        Severity::Info
    }
}

/// A finding of a rule: which rule, how serious, what and where, and how to fix it.
#[derive(Debug)]
pub struct RuleViolation {
    pub rule_name: String,
    pub severity: Severity,
    pub message: String,
    pub location: String,
    pub suggestion: Option<String>,
}

/// A finding as text: what `RuleViolation` holds, each string by its characters.
pub struct ViolationView {
    pub rule_name: Seq<char>,
    pub severity: Severity,
    pub message: Seq<char>,
    pub location: Seq<char>,
    pub suggestion: Option<Seq<char>>,
}

/// The text of an optional string.
pub open spec fn opt_string_view(s: Option<String>) -> Option<Seq<char>> {
    match s {
        Some(t) => Some(t@),
        None => None,
    }
}

impl View for RuleViolation {
    type V = ViolationView;

    open spec fn view(&self) -> ViolationView {
        ViolationView {
            rule_name: self.rule_name@,
            severity: self.severity,
            message: self.message@,
            location: self.location@,
            suggestion: opt_string_view(self.suggestion),
        }
    }
}

/// The findings in `v`, each as text.
pub open spec fn violations_view(v: Seq<RuleViolation>) -> Seq<ViolationView> {
    v.map_values(|x: RuleViolation| x@)
}

impl RuleViolation {
    /// A finding without a suggestion.
    pub fn new(rule_name: &str, severity: Severity, message: String, location: String) -> (r: Self)
        ensures
            r@ == (ViolationView {
                rule_name: rule_name@,
                severity: severity,
                message: message@,
                location: location@,
                suggestion: None,
            }),
    {
        RuleViolation { rule_name: String::from_str(rule_name), severity, message, location, suggestion: None }
    }

    /// The same finding with `suggestion` as its fix.
    pub fn with_suggestion(self, suggestion: String) -> (r: Self)
        ensures
            r@ == (ViolationView { suggestion: Some(suggestion@), ..self@ }),
    {
        RuleViolation { suggestion: Some(suggestion), ..self }
    }
}

/// A check over contract source text.  Implementations say, through
/// `violations`, which findings `check` returns for each text.
pub trait Rule {
    /// The rule's name.
    spec fn rule_name(&self) -> Seq<char>;

    /// The findings for the source text `source`, in order.
    spec fn violations(&self, source: Seq<char>) -> Seq<ViolationView>;

    /// The rule's name.
    fn name(&self) -> (r: &str)
        ensures
            r@ == self.rule_name(),
    ;

    /// What the rule looks for; empty unless the rule says.
    fn description(&self) -> (r: &str)
        default_ensures
            r@ == ""@,
    {
        ""
    }

    /// The findings for `source`.
    fn check(&self, source: &str) -> (r: Vec<RuleViolation>)
        ensures
            violations_view(r@) == self.violations(source@),
    ;
}

/// The findings of every rule of `rules` for `source`, rule after rule.
pub open spec fn all_violations(rules: Seq<Box<dyn Rule>>, source: Seq<char>) -> Seq<ViolationView>
    decreases rules.len(),
{
    if rules.len() == 0 {
        Seq::empty()
    } else {
        all_violations(rules.drop_last(), source) + rules.last().violations(source)
    }
}

/// The rules to run, in the order they were registered.
pub struct RuleRegistry {
    rules: Vec<Box<dyn Rule>>,
}

impl RuleRegistry {
    /// The registered rules.
    pub closed spec fn rules(&self) -> Seq<Box<dyn Rule>> {
        self.rules@
    }

    /// An empty registry.
    pub fn new() -> (r: Self)
        ensures
            r.rules() == Seq::<Box<dyn Rule>>::empty(),
    {
        RuleRegistry { rules: Vec::new() }
    }

    /// Adds `rule` after the rules already registered.
    pub fn register(&mut self, rule: Box<dyn Rule>)
        ensures
            final(self).rules() == old(self).rules().push(rule),
    {
        self.rules.push(rule);
    }

    /// Runs every rule on `source` and returns all findings, rule after rule.
    pub fn run_all(&self, source: &str) -> (r: Vec<RuleViolation>)
        ensures
            violations_view(r@) == all_violations(self.rules(), source@),
    {
        let mut out: Vec<RuleViolation> = Vec::new();
        let mut i: usize = 0;
        while i < self.rules.len()
            invariant
                i <= self.rules@.len(),
                violations_view(out@) == all_violations(self.rules@.subrange(0, i as int), source@),
            decreases self.rules@.len() - i,
        {
            let mut found = self.rules[i].check(source);
            let ghost before = out@;
            out.append(&mut found);
            proof {
                assert(self.rules@.subrange(0, i + 1).drop_last() =~= self.rules@.subrange(0, i as int));
                assert(violations_view(out@) =~= violations_view(before) + self.rules@[i as int].violations(source@));
            }
            i = i + 1;
        }
        proof {
            assert(self.rules@.subrange(0, self.rules@.len() as int) =~= self.rules@);
        }
        out
    }

    /// A registry holding the default rule set: the deprecated host function rule.
    pub fn with_default_rules() -> (r: Self)
        ensures
            r.rules().len() == 1,
            forall|source: Seq<char>| #[trigger] all_violations(r.rules(), source)
                == crate::rules::deprecated_host_fns::DeprecatedHostFnRule.violations(source),
    {
        let rule: Box<dyn Rule> = Box::new(crate::rules::deprecated_host_fns::DeprecatedHostFnRule::new());
        let rules = vec![rule];
        let r = RuleRegistry { rules };
        proof {
            let rs = r.rules();
            assert(rs.len() == 1 && rs[0] == rule && rs.last() == rule);
            assert(rs.drop_last() =~= Seq::<Box<dyn Rule>>::empty());
            assert forall|source: Seq<char>| #[trigger] all_violations(r.rules(), source)
                == crate::rules::deprecated_host_fns::DeprecatedHostFnRule.violations(source) by {
                assert(all_violations(rs.drop_last(), source) =~= Seq::<ViolationView>::empty());
                assert(all_violations(rs, source) =~= rule.violations(source));
            }
        }
        r
    }
}

} // verus!
