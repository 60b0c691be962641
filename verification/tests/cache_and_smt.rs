use sanctifier::cache::{AnalysisCache, ArithmeticIssue, CacheManager, CachedAnalysisResult, PanicIssue, SizeWarning, SizeWarningLevel};
use sanctifier::report::{cached_results, has_critical, has_high, in_file};
use sanctifier::smt::addition_overflow_issue;

fn results_with_gap(gap: &str) -> CachedAnalysisResult {
    CachedAnalysisResult {
        size_warnings: Vec::new(),
        unsafe_patterns: Vec::new(),
        auth_gaps: vec![gap.to_string()],
        panic_issues: Vec::new(),
        arithmetic_issues: Vec::new(),
        deprecated_issues: Vec::new(),
        custom_matches: Vec::new(),
    }
}

#[test]
fn sha256_hashes_in_lower_hex() {
    assert_eq!(
        CacheManager::calculate_hash(""),
        "e3b0c44298fc1c149afbf4c8996fb92427ae41e4649b934ca495991b7852b855"
    );
    assert_eq!(
        CacheManager::calculate_hash("abc"),
        "ba7816bf8f01cfea414140de5dae2223b00361a396177a9cb410ff61f20015ad"
    );
}

#[test]
fn cache_entries_are_replaced_per_file() {
    let mut m = CacheManager::new("proj/.sanctifier_cache".to_string(), None);
    assert_eq!(m.cache_path(), "proj/.sanctifier_cache");
    assert!(m.get_file_entry("a.rs").is_none());
    m.update_file_entry("a.rs", "h1".to_string(), results_with_gap("f"));
    m.update_file_entry("b.rs", "h2".to_string(), results_with_gap("g"));
    m.update_file_entry("a.rs", "h3".to_string(), results_with_gap("k"));
    let a = m.get_file_entry("a.rs").unwrap();
    assert_eq!(a.hash, "h3");
    assert_eq!(a.results.auth_gaps, vec!["k".to_string()]);
    assert_eq!(m.get_file_entry("b.rs").unwrap().hash, "h2");
    assert!(m.get_file_entry("c.rs").is_none());
}

#[test]
fn manager_keeps_loaded_cache() {
    let mut loaded = AnalysisCache::empty();
    loaded.files.push(("x.rs".to_string(), sanctifier::cache::FileCacheEntry { hash: "hx".to_string(), results: results_with_gap("z") }));
    let m = CacheManager::new("c".to_string(), Some(loaded));
    assert_eq!(m.get_file_entry("x.rs").unwrap().hash, "hx");
}

#[test]
fn overflow_finding_follows_solver_answer() {
    let issue = addition_overflow_issue("deposit", "lib.rs:12", true).unwrap();
    assert_eq!(issue.function_name, "deposit");
    assert_eq!(issue.location, "lib.rs:12");
    assert_eq!(
        issue.description,
        "SMT Solver (Z3) proved that this addition can overflow u64 bounds."
    );
    assert!(addition_overflow_issue("deposit", "lib.rs:12", false).is_none());
}

#[test]
fn cached_results_need_matching_hash() {
    let mut m = CacheManager::new("c".to_string(), None);
    assert!(cached_results(&m, "a.rs", "h").is_none());
    m.update_file_entry("a.rs", "h".to_string(), results_with_gap("f"));
    assert_eq!(cached_results(&m, "a.rs", "h").unwrap().auth_gaps, vec!["f".to_string()]);
    assert!(cached_results(&m, "a.rs", "other").is_none());
}

#[test]
fn severity_of_findings() {
    assert_eq!(in_file("src/lib.rs", "f:3"), "src/lib.rs:f:3");
    let unwrap = PanicIssue { issue_type: "unwrap".to_string(), location: "l".to_string() };
    let panic = PanicIssue { issue_type: "panic!".to_string(), location: "l".to_string() };
    assert!(!has_critical(&vec![], &vec![]));
    assert!(!has_critical(&vec![], &vec![unwrap]));
    assert!(has_critical(&vec![], &vec![panic]));
    assert!(has_critical(&vec!["f".to_string()], &vec![]));
    let ok = SizeWarning { struct_name: "S".to_string(), estimated_size: 10, level: SizeWarningLevel::Warning };
    let big = SizeWarning { struct_name: "T".to_string(), estimated_size: 99999, level: SizeWarningLevel::ExceedsLimit };
    assert!(!has_high(&vec![], &vec![], &vec![ok]));
    assert!(has_high(&vec![], &vec![], &vec![big]));
    let op = ArithmeticIssue { operation: "+".to_string(), suggestion: "s".to_string(), location: "l".to_string() };
    assert!(has_high(&vec![op], &vec![], &vec![]));
}
