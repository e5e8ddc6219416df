//! The command line of the release tool.

use vstd::prelude::*;
use vstd::string::*;

use super::error::ToolError;
use crate::text::str_equal;

verus! {

/// The release tool's usage text.
pub const HELP_TEXT: &'static str = "navi-release

Usage:
  navi-release prepare <version> [release-input.json]
  navi-release validate [version]
  navi-release notes <version>

Commands:
  prepare   Generate changelog and synced release files.
  validate  Verify synced release files.
  notes     Print release notes for a version.
";

/// What the release tool is asked to do.
#[derive(Debug, PartialEq, Eq)]
pub enum ReleaseCommand {
    /// Prepare a release at a version, from a release input file.
    Prepare {
        /// The release version.
        version: String,
        /// The release input file, if not the default one.
        input_path: Option<String>,
    },
    /// Check the release files, at a version or the manifest's.
    Validate {
        /// The version to check.
        version: Option<String>,
    },
    /// Print the release notes of a version.
    Notes {
        /// The version.
        version: String,
    },
    /// Print the usage text.
    Help,
    /// Print the tool's version.
    Version,
}

/// The text of an optional argument.
pub open spec fn arg_at(args: Seq<String>, i: int) -> Option<Seq<char>> {
    if 0 <= i < args.len() {
        Some(args[i]@)
    } else {
        None
    }
}

fn clone_arg(args: &[String], i: usize) -> (r: Option<String>)
    ensures
        match r {
            Some(s) => arg_at(args@, i as int) == Some(s@),
            None => arg_at(args@, i as int) is None,
        },
{
    if i < args.len() {
        Some(args[i].clone())
    } else {
        None
    }
}

/// Read the release tool's arguments (without the program name): no
/// arguments ask for help; `-h`/`--help`, `-V`/`--version`, `prepare
/// <version> [input]`, `validate [version]` and `notes <version>` are
/// known; anything else is refused.
pub fn parse_command(args: &[String]) -> (r: Result<ReleaseCommand, ToolError>)
    ensures
        args@.len() == 0 ==> r matches Ok(ReleaseCommand::Help),
        args@.len() > 0 ==> ({
            let first = args@[0]@;
            if first == "-h"@ || first == "--help"@ {
                r matches Ok(ReleaseCommand::Help)
            } else if first == "-V"@ || first == "--version"@ {
                r matches Ok(ReleaseCommand::Version)
            } else if first == "prepare"@ {
                match arg_at(args@, 1) {
                    None => r matches Err(ToolError::Message(m)) && m@ == "prepare requires <version>"@,
                    Some(v) => r matches Ok(ReleaseCommand::Prepare { version, input_path }) && version@ == v
                        && match input_path {
                        Some(p) => arg_at(args@, 2) == Some(p@),
                        None => arg_at(args@, 2) is None,
                    },
                }
            } else if first == "validate"@ {
                r matches Ok(ReleaseCommand::Validate { version }) && match version {
                    Some(v) => arg_at(args@, 1) == Some(v@),
                    None => arg_at(args@, 1) is None,
                }
            } else if first == "notes"@ {
                match arg_at(args@, 1) {
                    None => r matches Err(ToolError::Message(m)) && m@ == "notes requires <version>"@,
                    Some(v) => r matches Ok(ReleaseCommand::Notes { version }) && version@ == v,
                }
            } else {
                r matches Err(ToolError::Message(m)) && m@ == "unknown command: "@ + first
            }
        }),
{
    if args.len() == 0 {
        return Ok(ReleaseCommand::Help);
    }
    let first = args[0].as_str();
    if str_equal(first, "-h") || str_equal(first, "--help") {
        return Ok(ReleaseCommand::Help);
    }
    if str_equal(first, "-V") || str_equal(first, "--version") {
        return Ok(ReleaseCommand::Version);
    }
    if str_equal(first, "prepare") {
        return match clone_arg(args, 1) {
            None => Err(ToolError::message("prepare requires <version>")),
            Some(version) => Ok(ReleaseCommand::Prepare { version, input_path: clone_arg(args, 2) }),
        };
    }
    if str_equal(first, "validate") {
        return Ok(ReleaseCommand::Validate { version: clone_arg(args, 1) });
    }
    if str_equal(first, "notes") {
        return match clone_arg(args, 1) {
            None => Err(ToolError::message("notes requires <version>")),
            Some(version) => Ok(ReleaseCommand::Notes { version }),
        };
    }
    let mut m = String::new();
    m.append("unknown command: ");
    m.append(first);
    Err(ToolError::Message(m))
}

} // verus!
