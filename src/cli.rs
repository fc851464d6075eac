//! The command line: which file to read and which switches are on.
use vstd::prelude::*;
use vstd::string::*;
use crate::scheduler::{RunConfig, DEFAULT_CONCURRENCY};

verus! {

/// The switch that keeps a run going past failed fetches.
pub const IGNORE_ERRORS_FLAG: &'static str = "-i";

/// The switch that reports every downloaded and skipped destination.
pub const VERBOSE_FLAG: &'static str = "-v";

/// The switch that replaces destinations that already exist.
pub const FORCE_FLAG: &'static str = "-f";

/// The switch that asks for the usage text.
pub const HELP_FLAG: &'static str = "-h";

/// The settings that the command line asks for.
pub struct Args {
    pub url_file_name: String,
    pub ignore_download_errors: bool,
    pub verbose: bool,
    pub force_redownload: bool,
}

/// What the command line asks for.
pub enum Command {
    /// No file was named.
    Missing,
    /// The usage text.
    Help,
    /// A run with these settings; the file is still to be checked.
    Run(Args),
}

/// Whether some argument is exactly `flag`.
pub open spec fn has_arg(args: Seq<String>, flag: Seq<char>) -> bool {
    exists|i: int| 0 <= i < args.len() && (#[trigger] args[i])@ == flag
}

/// Whether `a` and `b` hold the same characters.
pub fn same_text(a: &str, b: &str) -> (r: bool)
    ensures
        r == (a@ == b@),
{
    let n = a.unicode_len();
    if n != b.unicode_len() {
        return false;
    }
    let mut i: usize = 0;
    while i < n
        invariant
            n == a@.len() == b@.len(),
            i <= n,
            forall|j: int| 0 <= j < i ==> a@[j] == b@[j],
        decreases n - i,
    {
        if a.get_char(i) != b.get_char(i) {
            return false;
        }
        i = i + 1;
    }
    assert(a@ =~= b@);
    true
}

/// Whether some argument is exactly `flag`.
pub fn contains_arg(args: &Vec<String>, flag: &str) -> (r: bool)
    ensures
        r == has_arg(args@, flag@),
{
    let mut i: usize = 0;
    while i < args.len()
        invariant
            i <= args.len(),
            forall|j: int| 0 <= j < i ==> (#[trigger] args@[j])@ != flag@,
        decreases args.len() - i,
    {
        if same_text(args[i].as_str(), flag) {
            return true;
        }
        i = i + 1;
    }
    false
}

/// Reads the command line `args`, program name first: the file is the first
/// argument after it, unless that is the help switch; each switch counts wherever
/// it stands.
pub fn parse_args(args: &Vec<String>) -> (r: Command)
    ensures
        args@.len() < 2 <==> r is Missing,
        (args@.len() >= 2 && args@[1]@ == HELP_FLAG@) <==> r is Help,
        r matches Command::Run(a) ==> a.url_file_name@ == args@[1]@
            && a.ignore_download_errors == has_arg(args@, IGNORE_ERRORS_FLAG@) && a.verbose
            == has_arg(args@, VERBOSE_FLAG@) && a.force_redownload == has_arg(
            args@,
            FORCE_FLAG@,
        ),
{
    if args.len() < 2 {
        return Command::Missing;
    }
    if same_text(args[1].as_str(), HELP_FLAG) {
        return Command::Help;
    }
    let url_file_name = args[1].clone();
    let ignore_download_errors = contains_arg(args, IGNORE_ERRORS_FLAG);
    let verbose = contains_arg(args, VERBOSE_FLAG);
    let force_redownload = contains_arg(args, FORCE_FLAG);
    Command::Run(Args { url_file_name, ignore_download_errors, verbose, force_redownload })
}

impl Args {
    /// The settings of a run for these arguments, at the default concurrency.
    pub fn run_config(&self) -> (r: RunConfig)
        ensures
            r.concurrency_limit == DEFAULT_CONCURRENCY,
            r.force_redownload == self.force_redownload,
            r.ignore_errors == self.ignore_download_errors,
            r.verbose == self.verbose,
    {
        RunConfig {
            concurrency_limit: DEFAULT_CONCURRENCY,
            force_redownload: self.force_redownload,
            ignore_errors: self.ignore_download_errors,
            verbose: self.verbose,
        }
    }
}

} // verus!
