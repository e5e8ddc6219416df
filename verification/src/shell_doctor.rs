//! What `doctor` finds about the shell integration.

use vstd::prelude::*;
use vstd::string::*;

use crate::doctor::{finding_view, finding_views, opt_text, DoctorFinding, DoctorFindingCode, DoctorScope, DoctorSeverity, FindingView};
use crate::error::{Error, Result};
use crate::repo::paths::{file_name_of, is_absolute_path, joined_path, path_file_name, path_join};
use crate::shell::{block_missing, block_present, block_invalid_message, inspect_managed_block, ManagedBlockState};
use crate::types::ShellKind;

verus! {

/// The view of a finding about the shell integration.
pub open spec fn shell_finding_view(
    severity: DoctorSeverity,
    code: DoctorFindingCode,
    message: Seq<char>,
    path: Option<Seq<char>>,
    hint: Option<Seq<char>>,
) -> FindingView {
    (severity, code, (2, Seq::empty()), message, path, hint)
}

/// A finding about the shell integration.
pub fn shell_finding(
    severity: DoctorSeverity,
    code: DoctorFindingCode,
    message: String,
    path: Option<String>,
    hint: Option<String>,
) -> (r: DoctorFinding)
    ensures
        finding_view(r) == shell_finding_view(severity, code, message@, opt_text(path), opt_text(hint)),
{
    DoctorFinding { severity, code, scope: DoctorScope::Shell, message, path, hint }
}

/// The command that installs the integration.
pub open spec fn install_hint(command_name: Seq<char>, shell: ShellKind) -> Seq<char> {
    "run: "@ + command_name + " config shell install --shell "@ + shell.spec_name()
}

/// The command that installs the integration for a shell.
pub fn shell_install_hint(command_name: &str, shell: ShellKind) -> (r: String)
    ensures
        r@ == install_hint(command_name@, shell),
{
    let mut out = String::new();
    out.append("run: ");
    out.append(command_name);
    out.append(" config shell install --shell ");
    out.append(shell.as_str());
    out
}

/// The rc file that holds the integration for a shell, in `$HOME`; `None`
/// when `$HOME` is not set.
pub open spec fn rc_path_of(shell: ShellKind, home: Option<Seq<char>>) -> Option<Seq<char>> {
    match home {
        Some(h) => Some(joined_path(h, shell.spec_rc_file_name())),
        None => None,
    }
}

/// Each shell keeps its integration in its own rc file under the home
/// directory: bash in `.bashrc`, zsh in `.zshrc`, never the same file.
pub proof fn lemma_rc_files(home: Seq<char>)
    ensures
        rc_path_of(ShellKind::Bash, Some(home)) == Some(joined_path(home, ".bashrc"@)),
        rc_path_of(ShellKind::Zsh, Some(home)) == Some(joined_path(home, ".zshrc"@)),
        rc_path_of(ShellKind::Bash, Some(home)) != rc_path_of(ShellKind::Zsh, Some(home)),
{
    reveal_strlit(".bashrc");
    reveal_strlit(".zshrc");
    assert(".bashrc"@[1] != ".zshrc"@[1]);
    reveal_strlit("/");
    let bash = ".bashrc"@;
    let zsh = ".zshrc"@;
    assert(!is_absolute_path(bash) && !is_absolute_path(zsh));
    let b = joined_path(home, bash);
    let z = joined_path(home, zsh);
    if home.len() == 0 || home.last() == '/' {
        assert(b == home + bash);
        assert(z == home + zsh);
        assert(b[home.len() + 1int] == bash[1]);
        assert(z[home.len() + 1int] == zsh[1]);
    } else {
        assert(b == home + "/"@ + bash);
        assert(z == home + "/"@ + zsh);
        assert(b[home.len() + 2int] == bash[1]);
        assert(z[home.len() + 2int] == zsh[1]);
    }
}

/// The file that holds the integration for a shell.
pub fn shell_rc_path(shell: ShellKind, home: Option<&str>) -> (r: Result<String>)
    ensures
        match rc_path_of(
            shell,
            match home {
                Some(h) => Some(h@),
                None => None,
            },
        ) {
            Some(p) => r matches Ok(q) && q@ == p,
            None => r matches Err(Error::HomeDirectory),
        },
        shell is Bash && home is Some ==> (r matches Ok(q) && q@ == joined_path(home->Some_0@, ".bashrc"@)),
        shell is Zsh && home is Some ==> (r matches Ok(q) && q@ == joined_path(home->Some_0@, ".zshrc"@)),
{
    match home {
        Some(h) => Ok(path_join(h, shell.rc_file_name())),
        None => Err(Error::HomeDirectory),
    }
}

/// The first step of the shell check: what it finds without reading files,
/// or the shell and file to look at.
#[derive(Debug)]
pub enum ShellDoctorPlan {
    /// The check is over with these findings.
    Done(Vec<DoctorFinding>),
    /// The integration file of the shell is to be looked at.
    Inspect { shell: ShellKind, rc_path: String },
}

/// The findings when the shell cannot be checked from the environment, if
/// it cannot: no `$SHELL`, an unsupported shell, or no `$HOME` where one is
/// needed.
pub open spec fn plan_findings(
    shell_var: Option<Seq<char>>,
    home: Option<Seq<char>>,
) -> Option<Seq<FindingView>> {
    match shell_var {
        None => Some(
            seq![
                shell_finding_view(
                    DoctorSeverity::Warning,
                    DoctorFindingCode::ShellDetectionFailed,
                    "unable to detect shell from $SHELL"@,
                    None,
                    Some("set $SHELL or pass --shell when installing integration"@),
                ),
            ],
        ),
        Some(v) => match file_name_of(v) {
            None => None,
            Some(name) => match ShellKind::spec_from_name(name) {
                None => Some(
                    seq![
                        shell_finding_view(
                            DoctorSeverity::Warning,
                            DoctorFindingCode::UnsupportedShell,
                            "shell '"@ + name + "' is not supported"@,
                            None,
                            Some("supported shells: bash, zsh"@),
                        ),
                    ],
                ),
                Some(shell) => match rc_path_of(shell, home) {
                    None => Some(
                        seq![
                            shell_finding_view(
                                DoctorSeverity::Warning,
                                DoctorFindingCode::HomeDirectoryMissing,
                                "$HOME is not set; shell integration could not be checked"@,
                                None,
                                None,
                            ),
                        ],
                    ),
                    Some(_) => None,
                },
            },
        },
    }
}

fn opt_str_view(s: Option<&str>) -> (r: Ghost<Option<Seq<char>>>)
    ensures
        r@ == match s {
            Some(x) => Some(x@),
            None => None::<Seq<char>>,
        },
{
    Ghost(
        match s {
            Some(x) => Some(x@),
            None => None,
        },
    )
}

/// Plan the shell check from `$SHELL` and `$HOME`.
/// Fails when `$SHELL` names no file.
pub fn shell_doctor_plan(shell_var: Option<&str>, home: Option<&str>) -> (r: Result<ShellDoctorPlan>)
    ensures
        ({
            let sv = match shell_var {
                Some(x) => Some(x@),
                None => None::<Seq<char>>,
            };
            let hv = match home {
                Some(x) => Some(x@),
                None => None::<Seq<char>>,
            };
            match sv {
                Some(v) if file_name_of(v) is None => r matches Err(Error::ShellDetection),
                _ => match plan_findings(sv, hv) {
                    Some(fs) => r matches Ok(ShellDoctorPlan::Done(found)) && finding_views(found@) == fs,
                    None => r matches Ok(ShellDoctorPlan::Inspect { shell, rc_path }) && ShellKind::spec_from_name(
                        file_name_of(sv->0)->0,
                    ) == Some(shell) && rc_path_of(shell, hv) == Some(rc_path@),
                },
            }
        }),
{
    let sv = match shell_var {
        None => {
            let mut found: Vec<DoctorFinding> = Vec::new();
            found.push(
                shell_finding(
                    DoctorSeverity::Warning,
                    DoctorFindingCode::ShellDetectionFailed,
                    "unable to detect shell from $SHELL".to_owned(),
                    None,
                    Some("set $SHELL or pass --shell when installing integration".to_owned()),
                ),
            );
            assert(finding_views(found@) =~= seq![finding_view(found@[0])]);
            return Ok(ShellDoctorPlan::Done(found));
        },
        Some(v) => v,
    };
    let name = match path_file_name(sv) {
        Some(n) => n,
        None => return Err(Error::ShellDetection),
    };
    let shell = match ShellKind::new(name.as_str()) {
        Ok(k) => k,
        Err(_) => {
            let mut message = String::new();
            message.append("shell '");
            message.append(name.as_str());
            message.append("' is not supported");
            let mut found: Vec<DoctorFinding> = Vec::new();
            found.push(
                shell_finding(
                    DoctorSeverity::Warning,
                    DoctorFindingCode::UnsupportedShell,
                    message,
                    None,
                    Some("supported shells: bash, zsh".to_owned()),
                ),
            );
            assert(finding_views(found@) =~= seq![finding_view(found@[0])]);
            return Ok(ShellDoctorPlan::Done(found));
        },
    };
    match shell_rc_path(shell, home) {
        Ok(rc_path) => Ok(ShellDoctorPlan::Inspect { shell, rc_path }),
        Err(_) => {
            let mut found: Vec<DoctorFinding> = Vec::new();
            found.push(
                shell_finding(
                    DoctorSeverity::Warning,
                    DoctorFindingCode::HomeDirectoryMissing,
                    "$HOME is not set; shell integration could not be checked".to_owned(),
                    None,
                    None,
                ),
            );
            assert(finding_views(found@) =~= seq![finding_view(found@[0])]);
            Ok(ShellDoctorPlan::Done(found))
        },
    }
}

/// What looking at the integration file found.
#[derive(Debug)]
pub enum RcProbe {
    /// The rc file's text.
    Contents(String),
    /// The rc file does not exist.
    NotFound,
    /// The rc file is not UTF-8.
    InvalidData,
    /// Reading the rc file failed otherwise; the error's text.
    Failed(String),
}

/// The findings of the shell check from what the integration file holds.
pub open spec fn inspect_findings(command_name: Seq<char>, shell: ShellKind, rc: Seq<char>, probe: RcProbe) -> Option<Seq<FindingView>> {
    let hint = Some(install_hint(command_name, shell));
    match probe {
        RcProbe::NotFound => Some(
            seq![
                shell_finding_view(
                    DoctorSeverity::Info,
                    DoctorFindingCode::ShellRcMissing,
                    "shell rc file "@ + rc + " does not exist yet"@,
                    Some(rc),
                    hint,
                ),
            ],
        ),
        RcProbe::InvalidData => Some(
            seq![
                shell_finding_view(
                    DoctorSeverity::Error,
                    DoctorFindingCode::InvalidShellRcFile,
                    "shell rc file "@ + rc + " is not valid UTF-8"@,
                    Some(rc),
                    None,
                ),
            ],
        ),
        RcProbe::Failed(_) => None,
        RcProbe::Contents(c) => if block_missing(c@) {
            Some(
                seq![
                    shell_finding_view(
                        DoctorSeverity::Info,
                        DoctorFindingCode::ShellIntegrationMissing,
                        "shell integration managed block is missing from "@ + rc,
                        Some(rc),
                        hint,
                    ),
                ],
            )
        } else if block_present(c@) {
            Some(Seq::empty())
        } else {
            Some(
                seq![
                    shell_finding_view(
                        DoctorSeverity::Error,
                        DoctorFindingCode::InvalidShellRcFile,
                        "invalid shell rc file at "@ + rc,
                        Some(rc),
                        Some(block_invalid_message(c@)),
                    ),
                ],
            )
        },
    }
}

fn single(f: DoctorFinding) -> (r: Vec<DoctorFinding>)
    ensures
        finding_views(r@) == seq![finding_view(f)],
{
    let ghost v = finding_view(f);
    let mut out: Vec<DoctorFinding> = Vec::new();
    out.push(f);
    assert(finding_views(out@) =~= seq![v]);
    out
}

fn text2(a: &str, b: &str) -> (r: String)
    ensures
        r@ == a@ + b@,
{
    let mut out = String::new();
    out.append(a);
    out.append(b);
    out
}

fn text3(a: &str, b: &str, c: &str) -> (r: String)
    ensures
        r@ == a@ + b@ + c@,
{
    let mut out = String::new();
    out.append(a);
    out.append(b);
    out.append(c);
    out
}

/// The findings of the shell check from what looking at the integration
/// file at `rc_path` found; a failed read fails the check.
pub fn shell_doctor_findings(command_name: &str, shell: ShellKind, rc_path: &str, probe: RcProbe) -> (r: Result<Vec<DoctorFinding>>)
    ensures
        match inspect_findings(command_name@, shell, rc_path@, probe) {
            Some(fs) => r matches Ok(found) && finding_views(found@) == fs,
            None => r matches Err(Error::Io(m)) && probe matches RcProbe::Failed(e) && m@ == e@,
        },
{
    let empty: Vec<DoctorFinding> = Vec::new();
    assert(finding_views(empty@) =~= Seq::<FindingView>::empty());
    match probe {
        RcProbe::NotFound => Ok(
            single(
                shell_finding(
                    DoctorSeverity::Info,
                    DoctorFindingCode::ShellRcMissing,
                    text3("shell rc file ", rc_path, " does not exist yet"),
                    Some(rc_path.to_owned()),
                    Some(shell_install_hint(command_name, shell)),
                ),
            ),
        ),
        RcProbe::InvalidData => Ok(
            single(
                shell_finding(
                    DoctorSeverity::Error,
                    DoctorFindingCode::InvalidShellRcFile,
                    text3("shell rc file ", rc_path, " is not valid UTF-8"),
                    Some(rc_path.to_owned()),
                    None,
                ),
            ),
        ),
        RcProbe::Failed(e) => Err(Error::Io(e)),
        RcProbe::Contents(c) => match inspect_managed_block(c.as_str()) {
            ManagedBlockState::Missing => Ok(
                single(
                    shell_finding(
                        DoctorSeverity::Info,
                        DoctorFindingCode::ShellIntegrationMissing,
                        text2("shell integration managed block is missing from ", rc_path),
                        Some(rc_path.to_owned()),
                        Some(shell_install_hint(command_name, shell)),
                    ),
                ),
            ),
            ManagedBlockState::Present { .. } => Ok(empty),
            ManagedBlockState::Invalid(message) => Ok(
                single(
                    shell_finding(
                        DoctorSeverity::Error,
                        DoctorFindingCode::InvalidShellRcFile,
                        text2("invalid shell rc file at ", rc_path),
                        Some(rc_path.to_owned()),
                        Some(message.to_owned()),
                    ),
                ),
            ),
        },
    }
}

} // verus!
