//! The configuration of one run, read from the command-line tokens.

use vstd::prelude::*;

verus! {

/// What to search for, where, and how to report it.
#[derive(Debug)]
pub struct Config {
    /// The file to scan.
    pub file_path: String,
    /// The text searched for in each line.
    pub pattern: String,
    /// Compare lines and pattern in lower case.
    pub ignore_case: bool,
    /// Select the lines that do not contain the pattern.
    pub reversed: bool,
    /// Prefix each selected line with its 1-based number.
    pub line_number: bool,
    /// Report only how many lines were selected.
    pub count: bool,
}

/// Why the command-line tokens do not make a configuration.
#[derive(Debug, Clone, Copy, PartialEq, Eq, Structural)]
pub enum ConfigError {
    /// Fewer than three tokens: the program name, a pattern and a file path.
    InsufficientArguments,
    /// No token left for the file path.
    MissingFilePath,
    /// No token left for the pattern.
    MissingPattern,
}

impl ConfigError {
    /// A message for the user.
    pub fn message(&self) -> (r: &'static str)
        ensures
            *self == ConfigError::InsufficientArguments ==> r@ == "Not enough parameters."@,
            *self == ConfigError::MissingFilePath ==> r@ == "No file path provided"@,
            *self == ConfigError::MissingPattern ==> r@ == "No search pattern provided"@,
    {
        match self {
            ConfigError::InsufficientArguments => "Not enough parameters.",
            ConfigError::MissingFilePath => "No file path provided",
            ConfigError::MissingPattern => "No search pattern provided",
        }
    }
}

/// The option token `flag` stands among the tokens between the program
/// name and the last two tokens.
pub open spec fn has_flag(args: Seq<String>, flag: Seq<char>) -> bool {
    exists|j: int| 1 <= j < args.len() - 2 && #[trigger] args[j]@ == flag
}

/// Whether `flag` stands among `args[1..end]`.
fn find_flag(args: &Vec<String>, end: usize, flag: &String) -> (r: bool)
    requires
        end <= args.len(),
    ensures
        r == exists|j: int| 1 <= j < end && #[trigger] args@[j]@ == flag@,
{
    let mut j: usize = 1;
    while j < end
        invariant
            end <= args.len(),
            1 <= j,
            forall|k: int| 1 <= k < j ==> #[trigger] args@[k]@ != flag@,
        decreases end - j,
    {
        if args[j] == *flag {
            return true;
        }
        j = j + 1;
    }
    false
}

impl Config {
    /// Reads a configuration from the command-line tokens, program name
    /// first. The last token is the file path and the one before it the
    /// pattern; among the others, `-i`, `-v`, `-n` and `-c` set the flags
    /// and any other token is ignored.
    pub fn build(args: Vec<String>) -> (r: Result<Config, ConfigError>)
        ensures
            args.len() < 3 <==> r is Err,
            r is Err ==> r->Err_0 == ConfigError::InsufficientArguments,
            r matches Ok(c) ==> {
                &&& c.file_path@ == args@[args.len() - 1]@
                &&& c.pattern@ == args@[args.len() - 2]@
                &&& c.ignore_case == has_flag(args@, "-i"@)
                &&& c.reversed == has_flag(args@, "-v"@)
                &&& c.line_number == has_flag(args@, "-n"@)
                &&& c.count == has_flag(args@, "-c"@)
            },
    {
        let n = args.len();
        if n < 3 {
            return Err(ConfigError::InsufficientArguments);
        }
        let file_path = args[n - 1].clone();
        let pattern = args[n - 2].clone();
        let ignore_case = find_flag(&args, n - 2, &String::from_str("-i"));
        let reversed = find_flag(&args, n - 2, &String::from_str("-v"));
        let line_number = find_flag(&args, n - 2, &String::from_str("-n"));
        let count = find_flag(&args, n - 2, &String::from_str("-c"));
        Ok(Config { file_path, pattern, ignore_case, reversed, line_number, count })
    }
}

} // verus!
