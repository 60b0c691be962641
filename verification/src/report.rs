//! The decisions of an analysis run: when cached results can be reused, how a
//! finding's location names its file, and how serious the findings are.
use vstd::prelude::*;
use crate::cache::{ArithmeticIssue, CacheManager, CachedAnalysisResult, PanicIssue, SizeWarning, SizeWarningLevel};

verus! {

/// The cached results of the file at `file_path`, where they were computed for
/// content with hash `hash`; `None` where the file must be analysed again.
pub fn cached_results<'a>(manager: &'a CacheManager, file_path: &str, hash: &str) -> (r: Option<
    &'a CachedAnalysisResult,
>)
    ensures
        match r {
            Some(res) => manager.entries().contains_key(file_path@) && manager.entries()[file_path@].hash@
                == hash@ && *res == manager.entries()[file_path@].results,
            None => !manager.entries().contains_key(file_path@) || manager.entries()[file_path@].hash@
                != hash@,
        },
{
    match manager.get_file_entry(file_path) {
        Some(entry) => {
            if crate::text::eq_str(&entry.hash, hash) {
                Some(&entry.results)
            } else {
                None
            }
        },
        None => None,
    }
}

/// A location inside the file `file_name`: the file name, a colon, then `location`.
pub fn in_file(file_name: &str, location: &str) -> (r: String)
    ensures
        r@ == file_name@ + ":"@ + location@,
{
    let mut s = String::from_str(file_name);
    s.append(":");
    s.append(location);
    proof {
        reveal_strlit(":");
    }
    s
}

/// Whether one of `issues` is an explicit `panic!`.
pub open spec fn has_explicit_panic(issues: Seq<PanicIssue>) -> bool {
    exists|i: int| 0 <= i < issues.len() && #[trigger] issues[i].issue_type@ == "panic!"@
}

/// Whether one of `warnings` is over the ledger entry limit.
pub open spec fn has_oversized(warnings: Seq<SizeWarning>) -> bool {
    exists|i: int| 0 <= i < warnings.len() && #[trigger] warnings[i].level == SizeWarningLevel::ExceedsLimit
}

/// Critical findings: an authentication gap, or an explicit `panic!`.
pub fn has_critical(auth_gaps: &Vec<String>, panic_issues: &Vec<PanicIssue>) -> (r: bool)
    ensures
        r == (auth_gaps@.len() > 0 || has_explicit_panic(panic_issues@)),
{
    if auth_gaps.len() > 0 {
        return true;
    }
    let mut i: usize = 0;
    while i < panic_issues.len()
        invariant
            i <= panic_issues@.len(),
            forall|j: int| 0 <= j < i ==> #[trigger] panic_issues@[j].issue_type@ != "panic!"@,
        decreases panic_issues@.len() - i,
    {
        if crate::text::eq_str(&panic_issues[i].issue_type, "panic!") {
            return true;
        }
        i = i + 1;
    }
    false
}

/// High findings: unchecked arithmetic, any panic or unwrap, or a struct over
/// the ledger entry limit.
pub fn has_high(
    arithmetic_issues: &Vec<ArithmeticIssue>,
    panic_issues: &Vec<PanicIssue>,
    size_warnings: &Vec<SizeWarning>,
) -> (r: bool)
    ensures
        r == (arithmetic_issues@.len() > 0 || panic_issues@.len() > 0 || has_oversized(
            size_warnings@,
        )),
{
    if arithmetic_issues.len() > 0 || panic_issues.len() > 0 {
        return true;
    }
    let mut i: usize = 0;
    while i < size_warnings.len()
        invariant
            i <= size_warnings@.len(),
            forall|j: int| 0 <= j < i ==> #[trigger] size_warnings@[j].level != SizeWarningLevel::ExceedsLimit,
        decreases size_warnings@.len() - i,
    {
        if size_warnings[i].level == SizeWarningLevel::ExceedsLimit {
            return true;
        }
        i = i + 1;
    }
    false
}

} // verus!
