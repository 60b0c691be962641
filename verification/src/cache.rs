//! Per-file cache of analysis results, keyed by file path and content hash.
use vstd::prelude::*;
use crate::rules::RuleViolation;
use sha2::Digest;

verus! {

/// A struct whose estimated ledger entry size is close to, or over, the limit.
pub struct SizeWarning {
    pub struct_name: String,
    pub estimated_size: usize,
    pub level: SizeWarningLevel,
}

/// Whether a size warning is over the ledger entry limit.
#[derive(Clone, Copy, Debug, PartialEq, Eq, Structural)]
pub enum SizeWarningLevel {
    Warning,
    ExceedsLimit,
}

/// A code pattern reported as unsafe, with the code it was found in.
pub struct UnsafePattern {
    pub snippet: String,
}

/// An explicit panic or unwrap and where it is.
pub struct PanicIssue {
    pub issue_type: String,
    pub location: String,
}

/// An unchecked arithmetic operation, how to fix it, and where it is.
pub struct ArithmeticIssue {
    pub operation: String,
    pub suggestion: String,
    pub location: String,
}

/// How serious a custom rule's match is.
#[derive(Clone, Copy, Debug, PartialEq, Eq, Structural)]
pub enum RuleSeverity {
    Info,
    Warning,
    Error,
}

/// A match of a user-defined rule.
pub struct CustomRuleMatch {
    pub rule_name: String,
    pub snippet: String,
    pub line: usize,
    pub severity: RuleSeverity,
}

/// Everything the analyses found in one file.
pub struct CachedAnalysisResult {
    pub size_warnings: Vec<SizeWarning>,
    pub unsafe_patterns: Vec<UnsafePattern>,
    pub auth_gaps: Vec<String>,
    pub panic_issues: Vec<PanicIssue>,
    pub arithmetic_issues: Vec<ArithmeticIssue>,
    pub deprecated_issues: Vec<RuleViolation>,
    pub custom_matches: Vec<CustomRuleMatch>,
}

/// The cached results of one file, with the hash of the content they are for.
pub struct FileCacheEntry {
    pub hash: String,
    pub results: CachedAnalysisResult,
}

/// The cache: one entry per file path.
pub struct AnalysisCache {
    pub files: Vec<(String, FileCacheEntry)>,
}

/// The entry of each path, a later pair for a path overriding an earlier one.
pub open spec fn entries_map(files: Seq<(String, FileCacheEntry)>) -> Map<Seq<char>, FileCacheEntry>
    decreases files.len(),
{
    if files.len() == 0 {
        Map::empty()
    } else {
        entries_map(files.drop_last()).insert(files.last().0@, files.last().1)
    }
}

impl AnalysisCache {
    /// The entry of each path.
    pub open spec fn entries(&self) -> Map<Seq<char>, FileCacheEntry> {
        entries_map(self.files@)
    }

    /// An empty cache.
    pub fn empty() -> (r: Self)
        ensures
            r.entries() == Map::<Seq<char>, FileCacheEntry>::empty(),
    {
        AnalysisCache { files: Vec::new() }
    }
}

/// Where the last pair for `key` stands in `files`, if there is one.
fn last_index_of(files: &Vec<(String, FileCacheEntry)>, key: &str) -> (r: Option<usize>)
    ensures
        match r {
            Some(i) => i < files@.len() && files@[i as int].0@ == key@ && forall|j: int|
                i < j < files@.len() ==> #[trigger] files@[j].0@ != key@,
            None => forall|j: int| 0 <= j < files@.len() ==> #[trigger] files@[j].0@ != key@,
        },
{
    let target = String::from_str(key);
    let mut i: usize = files.len();
    while i > 0
        invariant
            i <= files@.len(),
            target@ == key@,
            forall|j: int| i <= j < files@.len() ==> #[trigger] files@[j].0@ != key@,
        decreases i,
    {
        if files[i - 1].0 == target {
            return Some(i - 1);
        }
        i = i - 1;
    }
    None
}

proof fn lemma_entries_map_lookup(files: Seq<(String, FileCacheEntry)>, key: Seq<char>, i: int)
    requires
        0 <= i < files.len(),
        files[i].0@ == key,
        forall|j: int| i < j < files.len() ==> #[trigger] files[j].0@ != key,
    ensures
        entries_map(files).contains_key(key),
        entries_map(files)[key] == files[i].1,
    decreases files.len(),
{
    if i < files.len() - 1 {
        lemma_entries_map_lookup(files.drop_last(), key, i);
    }
}

proof fn lemma_entries_map_absent(files: Seq<(String, FileCacheEntry)>, key: Seq<char>)
    requires
        forall|j: int| 0 <= j < files.len() ==> #[trigger] files[j].0@ != key,
    ensures
        !entries_map(files).contains_key(key),
    decreases files.len(),
{
    if files.len() > 0 {
        lemma_entries_map_absent(files.drop_last(), key);
    }
}

proof fn lemma_entries_map_replace(files: Seq<(String, FileCacheEntry)>, i: int, pair: (String, FileCacheEntry))
    requires
        0 <= i < files.len(),
        files[i].0@ == pair.0@,
        forall|j: int| i < j < files.len() ==> #[trigger] files[j].0@ != pair.0@,
    ensures
        entries_map(files.update(i, pair)) == entries_map(files).insert(pair.0@, pair.1),
    decreases files.len(),
{
    if i == files.len() - 1 {
        assert(files.update(i, pair).drop_last() =~= files.drop_last());
        assert(entries_map(files.update(i, pair)) =~= entries_map(files).insert(pair.0@, pair.1));
    } else {
        lemma_entries_map_replace(files.drop_last(), i, pair);
        assert(files.update(i, pair).drop_last() =~= files.drop_last().update(i, pair));
        assert(entries_map(files.update(i, pair)) =~= entries_map(files).insert(pair.0@, pair.1));
    }
}

/// The name of a result of the SHA-256 hash of `data` (32 bytes).
pub uninterp spec fn sha256_of(data: Seq<u8>) -> Seq<u8>;

/// Hashes `data` with `sha2::Sha256::digest`.  Claimed: the result is
/// `sha256_of(data)`, which depends on the bytes alone, and is 32 bytes long.
#[verifier::external_body]
fn sha256(data: &[u8]) -> (r: Vec<u8>)
    ensures
        r@ == sha256_of(data@),
        r@.len() == 32,
{
    sha2::Sha256::digest(data).to_vec()
}

/// The lower-case hexadecimal digit for `n < 16`.
pub open spec fn hex_digit(n: nat) -> char {
    if n < 10 {
        crate::text::digit_char(n)
    } else if n == 10 {
        'a'
    } else if n == 11 {
        'b'
    } else if n == 12 {
        'c'
    } else if n == 13 {
        'd'
    } else if n == 14 {
        'e'
    } else {
        'f'
    }
}

/// `bytes` in lower-case hexadecimal, two digits per byte, high digit first.
pub open spec fn hex_lower(bytes: Seq<u8>) -> Seq<char>
    decreases bytes.len(),
{
    if bytes.len() == 0 {
        Seq::empty()
    } else {
        hex_lower(bytes.drop_last()) + seq![hex_digit(bytes.last() as nat / 16), hex_digit(bytes.last() as nat % 16)]
    }
}

/// Encodes `bytes` with `hex::encode`.  Claimed: two lower-case hexadecimal
/// digits per byte, high digit first (the crate's table `0123456789abcdef`).
#[verifier::external_body]
fn hex_encode(bytes: &[u8]) -> (r: String)
    ensures
        r@ == hex_lower(bytes@),
{
    hex::encode(bytes)
}

proof fn lemma_hex_lower_len(bytes: Seq<u8>)
    ensures
        hex_lower(bytes).len() == 2 * bytes.len(),
    decreases bytes.len(),
{
    if bytes.len() > 0 {
        lemma_hex_lower_len(bytes.drop_last());
    }
}

/// Keeps the analysis cache of a project and where it is saved.
pub struct CacheManager {
    cache_path: String,
    pub cache: AnalysisCache,
}

impl CacheManager {
    /// Where the cache is saved.
    pub closed spec fn path(&self) -> Seq<char> {
        self.cache_path@
    }

    /// The entry of each path in the cache held.
    pub closed spec fn entries(&self) -> Map<Seq<char>, FileCacheEntry> {
        self.cache.entries()
    }

    /// A manager for the cache saved at `cache_path`, holding what was read from
    /// it, or an empty cache where nothing could be read.
    pub fn new(cache_path: String, loaded: Option<AnalysisCache>) -> (r: Self)
        ensures
            r.path() == cache_path@,
            r.entries() == match loaded {
                Some(c) => c.entries(),
                None => Map::<Seq<char>, FileCacheEntry>::empty(),
            },
    {
        let cache = match loaded {
            Some(c) => c,
            None => AnalysisCache::empty(),
        };
        CacheManager { cache_path, cache }
    }

    /// Where the cache is saved.
    pub fn cache_path(&self) -> (r: &str)
        ensures
            r@ == self.path(),
    {
        self.cache_path.as_str()
    }

    /// The cached entry of the file at `file_path`, if any.
    pub fn get_file_entry(&self, file_path: &str) -> (r: Option<&FileCacheEntry>)
        ensures
            match r {
                Some(e) => self.entries().contains_key(file_path@) && *e == self.entries()[file_path@],
                None => !self.entries().contains_key(file_path@),
            },
    {
        match last_index_of(&self.cache.files, file_path) {
            Some(i) => {
                proof {
                    lemma_entries_map_lookup(self.cache.files@, file_path@, i as int);
                }
                Some(&self.cache.files[i].1)
            },
            None => {
                proof {
                    lemma_entries_map_absent(self.cache.files@, file_path@);
                }
                None
            },
        }
    }

    /// Records `hash` and `results` as the entry of the file at `file_path`,
    /// replacing any earlier entry of that file.
    pub fn update_file_entry(&mut self, file_path: &str, hash: String, results: CachedAnalysisResult)
        ensures
            final(self).entries() == old(self).entries().insert(
                file_path@,
                FileCacheEntry { hash: hash, results: results },
            ),
            final(self).path() == old(self).path(),
    {
        let entry = FileCacheEntry { hash, results };
        let key = String::from_str(file_path);
        let ghost files = self.cache.files@;
        match last_index_of(&self.cache.files, file_path) {
            Some(i) => {
                proof {
                    lemma_entries_map_replace(files, i as int, (key, entry));
                }
                self.cache.files.set(i, (key, entry));
                assert(self.cache.files@ == files.update(i as int, (key, entry)));
            },
            None => {
                self.cache.files.push((key, entry));
                assert(self.cache.files@.drop_last() == files);
            },
        }
    }

    /// The SHA-256 hash of `content` (its UTF-8 bytes) in lower-case hexadecimal.
    pub fn calculate_hash(content: &str) -> (r: String)
        ensures
            r@ == hex_lower(sha256_of(vstd::utf8::encode_utf8(content@))),
            r@.len() == 64,
    {
        let digest = sha256(content.as_bytes());
        proof {
            lemma_hex_lower_len(digest@);
        }
        hex_encode(digest.as_slice())
    }
}

/// Reading the cache after recording an entry for a file gives that entry back,
/// and the entry of every other file as it was before.
pub proof fn lemma_read_after_update(
    before: Map<Seq<char>, FileCacheEntry>,
    file_path: Seq<char>,
    entry: FileCacheEntry,
    other: Seq<char>,
)
    ensures
        before.insert(file_path, entry).contains_key(file_path),
        before.insert(file_path, entry)[file_path] == entry,
        other != file_path ==> (before.insert(file_path, entry).contains_key(other)
            == before.contains_key(other)),
        other != file_path && before.contains_key(other) ==> before.insert(file_path, entry)[other]
            == before[other],
{
}

} // verus!
