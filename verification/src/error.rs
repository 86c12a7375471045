//! What can go wrong, the exit code it ends the process with, and the line
//! that tells the user of it.

use vstd::prelude::*;
use vstd::string::*;

verus! {

/// A failure that ends the invocation.
#[derive(Debug, PartialEq, Eq)]
pub enum Error {
    /// Neither an ancestor directory nor the fallback defines the name.
    NotFound(String),
    /// A configuration file is there, but does not hold a mapping.
    Parse { path: String, cause: String },
    /// `delete` found no configuration file in the current directory.
    NoConfigFile,
    /// `delete` found the mapping, but not the name in it.
    NameNotDefined(String),
    /// The command found could not be started.
    Launch(String),
    /// A file could not be read or written.
    Io { path: String, cause: String },
    /// Nothing was given to run.
    NoSubcommand,
    /// The configuration file's path names no directory that holds it.
    NoDirectory(String),
}

/// A failure as plain text.
pub enum ErrorView {
    NotFound(Seq<char>),
    Parse { path: Seq<char>, cause: Seq<char> },
    NoConfigFile,
    NameNotDefined(Seq<char>),
    Launch(Seq<char>),
    Io { path: Seq<char>, cause: Seq<char> },
    NoSubcommand,
    NoDirectory(Seq<char>),
}

impl View for Error {
    type V = ErrorView;

    open spec fn view(&self) -> ErrorView {
        match self {
            Error::NotFound(name) => ErrorView::NotFound(name@),
            Error::Parse { path, cause } => ErrorView::Parse { path: path@, cause: cause@ },
            Error::NoConfigFile => ErrorView::NoConfigFile,
            Error::NameNotDefined(name) => ErrorView::NameNotDefined(name@),
            Error::Launch(cause) => ErrorView::Launch(cause@),
            Error::Io { path, cause } => ErrorView::Io { path: path@, cause: cause@ },
            Error::NoSubcommand => ErrorView::NoSubcommand,
            Error::NoDirectory(path) => ErrorView::NoDirectory(path@),
        }
    }
}

/// Whether a failure is a fault of the invocation's surroundings rather than
/// an answer to the user: a file that gave no mapping or could not be read
/// or written, a command that could not be started, a command line or a
/// path that cannot be made sense of. The others tell the user that what
/// was asked for is not there.
pub open spec fn hard_of(e: ErrorView) -> bool {
    !(e is NotFound || e is NoConfigFile || e is NameNotDefined)
}

/// The line that reports an undefined name: the name in double quotes, then
/// what is wrong with it.
pub open spec fn not_defined_of(name: Seq<char>) -> Seq<char> {
    "\""@ + name + "\" command is not defined"@
}

/// The line that reports a failure.
pub open spec fn message_of(e: ErrorView) -> Seq<char> {
    match e {
        ErrorView::NotFound(name) => not_defined_of(name),
        ErrorView::Parse { path, cause } => "failed to parse "@ + path + ": "@ + cause,
        ErrorView::NoConfigFile => ".uribo file does not exist in the current directory"@,
        ErrorView::NameNotDefined(name) => not_defined_of(name),
        ErrorView::Launch(cause) => "failed to launch the command: "@ + cause,
        ErrorView::Io { path, cause } => path + ": "@ + cause,
        ErrorView::NoSubcommand => "No subcommand given"@,
        ErrorView::NoDirectory(path) => path + " has no parent directory"@,
    }
}

/// `first`, then each of the three that follow.
fn glue(first: &str, second: &str, third: &str, fourth: &str) -> (s: String)
    ensures
        s@ == first@ + second@ + third@ + fourth@,
{
    let mut s = first.to_owned();
    s.append(second);
    s.append(third);
    s.append(fourth);
    s
}

impl Error {
    /// The exit code of an invocation that ends in this failure.
    pub fn exit_code(&self) -> (code: i32)
        ensures
            code == 1,
    {
        1
    }

    /// Whether the failure is a hard one.
    pub fn is_hard(&self) -> (hard: bool)
        ensures
            hard == hard_of(self@),
    {
        match self {
            Error::NotFound(_) => false,
            Error::NoConfigFile => false,
            Error::NameNotDefined(_) => false,
            _ => true,
        }
    }

    /// The line for the error stream.
    pub fn message(&self) -> (line: String)
        ensures
            line@ == message_of(self@),
    {
        match self {
            Error::NotFound(name) => {
                let line = glue("\"", name.as_str(), "\" command is not defined", "");
                proof {
                    reveal_strlit("");
                    assert(line@ =~= message_of(self@));
                }
                line
            },
            Error::Parse { path, cause } => glue(
                "failed to parse ",
                path.as_str(),
                ": ",
                cause.as_str(),
            ),
            Error::NoConfigFile => ".uribo file does not exist in the current directory".to_owned(),
            Error::NameNotDefined(name) => {
                let line = glue("\"", name.as_str(), "\" command is not defined", "");
                proof {
                    reveal_strlit("");
                    assert(line@ =~= message_of(self@));
                }
                line
            },
            Error::Launch(cause) => {
                let line = glue("failed to launch the command: ", cause.as_str(), "", "");
                proof {
                    reveal_strlit("");
                    assert(line@ =~= message_of(self@));
                }
                line
            },
            Error::Io { path, cause } => {
                let line = glue(path.as_str(), ": ", cause.as_str(), "");
                proof {
                    reveal_strlit("");
                    assert(line@ =~= message_of(self@));
                }
                line
            },
            Error::NoSubcommand => "No subcommand given".to_owned(),
            Error::NoDirectory(path) => {
                let line = glue(path.as_str(), " has no parent directory", "", "");
                proof {
                    reveal_strlit("");
                    assert(line@ =~= message_of(self@));
                }
                line
            },
        }
    }
}

} // verus!
