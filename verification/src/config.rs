use vstd::prelude::*;

verus! {

/// The run's configuration, as the command line supplies it: where the
/// license template lives, where the project manifest is, and how results
/// are reported.  Passed explicitly to the orchestration layer; the library
/// itself keeps no ambient state.
pub struct CliArgs {
    /// The location of the license template.
    pub template: String,
    /// Path to the project manifest.
    pub manifest_path: Option<String>,
    /// Use verbose output.
    pub verbose: bool,
    /// Use colored output (if supported).
    pub color: bool,
    /// The location of a file that contains ignored files and directories.
    pub ignore: Option<String>,
}

} // verus!
