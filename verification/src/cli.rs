//! The decisions of the command line: which argument names the input, and
//! what is said to the user when a run cannot go on.

use vstd::prelude::*;
use vstd::string::*;

verus! {

/// The command line does not consist of the program's name and exactly one
/// argument.
#[derive(Debug, Clone, Copy, PartialEq, Eq, Structural)]
pub struct UsageError;

/// Picks the path of the input from the command line, whose first element is
/// the name of the program. There must be exactly one argument behind it;
/// with none, or with two or more, the run is refused before anything is read
/// or written.
pub fn input_path(args: &Vec<String>) -> (path: Result<&String, UsageError>)
    ensures
        match path {
            Ok(path) => args.len() == 2 && *path == args[1],
            Err(_) => args.len() != 2,
        },
{
    if args.len() == 2 {
        Ok(&args[1])
    } else {
        Err(UsageError)
    }
}

/// The line that tells the user how to call the program.
pub fn usage_line(program: &str) -> (line: String)
    ensures
        line@ == "Usage: "@ + program@ + " <CSV file>"@,
{
    String::from_str("Usage: ").concat(program).concat(" <CSV file>")
}

/// The line that reports a failed run to the user.
pub fn error_line(description: &str) -> (line: String)
    ensures
        line@ == "Error: "@ + description@,
{
    String::from_str("Error: ").concat(description)
}

} // verus!
