//! The command-line commands and the choices made from their arguments.
use vstd::prelude::*;

verus! {

/// Arguments of `analyze`: what to analyse, the output format, and the
/// ledger entry size limit in bytes.
pub struct AnalyzeArgs {
    pub path: String,
    pub format: String,
    pub limit: usize,
}

impl AnalyzeArgs {
    /// Whether the report is written as JSON.
    pub fn is_json(&self) -> (r: bool)
        ensures
            r == (self.format@ == "json"@),
    {
        crate::text::eq_str(&self.format, "json")
    }

    /// Whether the logo is printed before the analysis: for every format but JSON.
    pub fn shows_logo(&self) -> (r: bool)
        ensures
            r == (self.format@ != "json"@),
    {
        !self.is_json()
    }
}

/// The commands of the tool.
pub enum Commands {
    /// Analyse a Soroban contract for vulnerabilities.
    Analyze(AnalyzeArgs),
    /// Generate a security report, to `output` where one is given.
    Report { output: Option<String> },
    /// Set the tool up in a new project.
    Init,
    /// Check for a newer release of the tool.
    Update,
    /// Translate a contract into a harness for a model checker.
    Kani { path: String, output: Option<String> },
}

} // verus!
