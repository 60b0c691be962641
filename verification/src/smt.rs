//! Findings of the SMT-based invariant checks, and the decision that turns a
//! solver's answer on the `u64` addition-overflow query into a finding.
use vstd::prelude::*;

verus! {

/// An invariant that the SMT solver showed can be broken.
pub struct SmtInvariantIssue {
    pub function_name: String,
    pub description: String,
    pub location: String,
}

/// The finding reported when `a + b` can exceed `u64::MAX`.
pub open spec fn addition_overflow_description() -> Seq<char> {
    "SMT Solver (Z3) proved that this addition can overflow u64 bounds."@
}

/// The query put to the solver: `0 <= a, b <= u64::MAX` and `a + b > u64::MAX`.
pub open spec fn addition_overflow_query(a: int, b: int) -> bool {
    &&& 0 <= a <= u64::MAX
    &&& 0 <= b <= u64::MAX
    &&& a + b > u64::MAX
}

/// What the addition-overflow check reports for a function, given whether
/// the solver found the query satisfiable.
pub fn addition_overflow_issue(fn_name: &str, location: &str, satisfiable: bool) -> (r: Option<
    SmtInvariantIssue,
>)
    ensures
        match r {
            Some(issue) => satisfiable && issue.function_name@ == fn_name@
                && issue.description@ == addition_overflow_description()
                && issue.location@ == location@,
            None => !satisfiable,
        },
{
    if satisfiable {
        Some(
            SmtInvariantIssue {
                function_name: String::from_str(fn_name),
                description: String::from_str(
                    "SMT Solver (Z3) proved that this addition can overflow u64 bounds.",
                ),
                location: String::from_str(location),
            },
        )
    } else {
        None
    }
}

/// The addition-overflow query is satisfiable: two `u64` values exist whose
/// sum does not fit in a `u64` (both `u64::MAX`), so a sound solver answers
/// "satisfiable" and the check reports a finding.
pub proof fn lemma_addition_overflow_query_satisfiable()
    ensures
        exists|a: int, b: int| addition_overflow_query(a, b),
{
    assert(addition_overflow_query(u64::MAX as int, u64::MAX as int));
}

} // verus!
