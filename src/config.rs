//! The resolved configuration of a run.
use vstd::prelude::*;

verus! {

/// The options of a run, as resolved from the command line.
#[derive(Debug)]
pub struct Cli {
    /// Terminal coloring: "on" or "off".
    pub color: Option<String>,
    /// How quiet the output is.
    pub quiet: u8,
    /// Use symlinked files for tests.
    pub follow_symlinks: bool,
    /// Do not rebuild the compiler under test.
    pub nomake: bool,
    /// Build the compiler as `make <lab>`.
    pub make: Option<String>,
    /// Path to a reference compiler.
    pub cc0: Option<String>,
    /// Number of tests to run in parallel.
    pub parallel: Option<u32>,
    /// Comma-separated arguments for the compiler.
    pub args: Option<String>,
    /// Compiler variant: "x86-64", "exe" or "llvm".
    pub emit: String,
    /// Run only the tests listed in keep.txt.
    pub prune: bool,
    /// Run the verifier's mac executable.
    pub mac: bool,
    /// Directory of the static analysis binaries.
    pub static_analysis_dir: Option<String>,
    /// Fail duplicate tests.
    pub fail_duplicate_tests: bool,
    /// Warn about duplicate tests.
    pub warn_duplicate_tests: bool,
    /// Fail buggy tests.
    pub fail_dodgy_tests: bool,
    /// Run only the tests expected to die of a signal.
    pub unsafe_only: bool,
    /// Run only the tests expected to return or to check.
    pub safe_only: bool,
    /// Only check each test; do not run it.
    pub typecheck_only: bool,
    /// Allow tests that loop forever.
    pub allow_infloop_tests: bool,
    /// Compiler build time limit, in seconds.
    pub limit_make: u32,
    /// Checking time limit, in seconds.
    pub limit_tc: u32,
    /// Compiling time limit, in seconds.
    pub limit_compile: u32,
    /// Linking time limit, in seconds.
    pub limit_link: u32,
    /// Running time limit, in seconds.
    pub limit_run: u32,
    /// Longest accepted file name.
    pub limit_filename: u32,
    /// Relaxed test case validation.
    pub relax: bool,
    /// Delete all log files.
    pub nolog: bool,
    /// Print debug information.
    pub debug: bool,
    /// Run only the tests with this extension.
    pub filter: Option<String>,
    pub forward_may: bool,
    pub forward_must: bool,
    pub backward_must: bool,
    pub backward_may: bool,
    /// Print the score in machine-readable form too.
    pub autograder: bool,
    /// The directory of the tests.
    pub path: String,
}

impl Cli {
    /// The number of workers that run tests: the configured parallelism,
    /// or 1 where none is configured.
    pub fn pool_size(&self) -> (r: u32)
        ensures
            r == match self.parallel {
                Some(n) => n,
                None => 1u32,
            },
    {
        match self.parallel {
            Some(n) => n,
            None => 1,
        }
    }

    /// The deadline of a test program, in seconds.
    pub fn run_deadline_secs(&self) -> (r: u64)
        ensures
            r == self.limit_run,
    {
        self.limit_run as u64
    }
}

} // verus!
