//! The commands of the tool, and what a `list` command asks for.
use vstd::prelude::*;
use crate::resolve::same_text;

verus! {

/// A parsed command line.
pub struct Cli {
    pub command: Commands,
}

/// The commands of the tool.
pub enum Commands {
    /// Install a runtime version (the latest when none is given).
    Add { runtime: String, version: Option<String> },
    /// Remove one version, or every version when none is given.
    Remove { runtime: String, version: Option<String> },
    /// Remove every installed version but the one named.
    Prune { runtime: String, version: String },
    /// Install the latest version and make it the default.
    Update { runtime: String },
    /// Make an installed version the default.
    SetDefault { runtime: String, version: String },
    /// Use an installed version in the current session only.
    Use { runtime: String, version: String },
    /// Run a command again whenever files change.
    Watch { args: Vec<String> },
    /// List runtimes, or the available or installed versions of one.
    List { args: Vec<String> },
}

/// What a `list` command asks for.
#[derive(Debug, Clone, PartialEq, Eq)]
pub enum ListRequest {
    /// No argument was given.
    NoArguments,
    /// The supported runtimes.
    Runtimes,
    /// The versions of a runtime that can be installed.
    Available(String),
    /// The installed versions of a runtime.
    Installed(String),
    /// `available` or `installed` without a runtime name.
    MissingRuntime(String),
    /// Anything else.
    Unknown,
}

/// Reads the arguments of a `list` command.
pub fn list_request(args: &Vec<String>) -> (r: ListRequest)
    ensures
        args@.len() == 0 ==> r == ListRequest::NoArguments,
        args@.len() > 0 && args@[0]@ == "runtimes"@ ==> r == ListRequest::Runtimes,
        args@.len() > 0 && args@[0]@ == "available"@ ==> if args@.len() >= 2 {
            r is Available && r->Available_0@ == args@[1]@
        } else {
            r is MissingRuntime && r->MissingRuntime_0@ == "available"@
        },
        args@.len() > 0 && args@[0]@ == "installed"@ ==> if args@.len() >= 2 {
            r is Installed && r->Installed_0@ == args@[1]@
        } else {
            r is MissingRuntime && r->MissingRuntime_0@ == "installed"@
        },
        args@.len() > 0 && args@[0]@ != "runtimes"@ && args@[0]@ != "available"@ && args@[0]@
            != "installed"@ ==> r == ListRequest::Unknown,
{
    proof {
        reveal_strlit("runtimes");
        reveal_strlit("available");
        reveal_strlit("installed");
        assert("runtimes"@.len() != "available"@.len());
        assert("runtimes"@.len() != "installed"@.len());
        assert("available"@[0] != "installed"@[0]);
    }
    if args.len() == 0 {
        return ListRequest::NoArguments;
    }
    let first = &args[0];
    if same_text(first, "runtimes") {
        ListRequest::Runtimes
    } else if same_text(first, "available") {
        if args.len() < 2 {
            ListRequest::MissingRuntime("available".to_owned())
        } else {
            ListRequest::Available(args[1].clone())
        }
    } else if same_text(first, "installed") {
        if args.len() < 2 {
            ListRequest::MissingRuntime("installed".to_owned())
        } else {
            ListRequest::Installed(args[1].clone())
        }
    } else {
        ListRequest::Unknown
    }
}

} // verus!
