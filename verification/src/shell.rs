//! Shell integration: wrapper scripts, the managed rc-file block and `cd`
//! directives.

use vstd::prelude::*;
use vstd::string::*;

use crate::error::{Error, Result};
use crate::table::{byte_len, utf8_len};
use crate::text::{append_range, chars_of, matches_at, occurs_at, push_char, string_of, sub_chars, trim, trim_ws};
use crate::types::ShellKind;

verus! {

/// Environment variable used by shell integration to pass a directive file.
pub const DIRECTIVE_FILE_ENV_VAR: &'static str = "NAVI_DIRECTIVE_FILE";

/// Marker for the start of the managed shell block.
pub const MANAGED_BLOCK_START: &'static str = "# >>> jj-navi shell init >>>";

/// Marker for the end of the managed shell block.
pub const MANAGED_BLOCK_END: &'static str = "# <<< jj-navi shell init <<<";

/// The two command names a wrapper is emitted for, the primary one first.
pub open spec fn command_names(primary: Seq<char>) -> (Seq<char>, Seq<char>) {
    if primary == "nv"@ {
        ("nv"@, "navi"@)
    } else {
        ("navi"@, "nv"@)
    }
}

/// The two command names a wrapper is emitted for, the primary one first.
pub fn shell_command_names(primary: &str) -> (r: [&'static str; 2])
    ensures
        r@[0]@ == command_names(primary@).0,
        r@[1]@ == command_names(primary@).1,
{
    if crate::text::str_equal(primary, "nv") {
        ["nv", "navi"]
    } else {
        ["navi", "nv"]
    }
}

/// The wrapper code for one command name.
pub open spec fn command_init_text(command_name: Seq<char>, shell: ShellKind) -> Seq<char> {
    posix_command_init_text(command_name, shell)
}

/// Render the wrapper code for one command name.
fn render_command_init(command_name: &str, shell: ShellKind) -> (r: String)
    ensures
        r@ == command_init_text(command_name@, shell),
{
    render_posix_command_init(command_name, shell)
}

/// Shell initialization code: a header line, then a wrapper for each of
/// the two command names.
pub open spec fn shell_init_text(command_name: Seq<char>, shell: ShellKind) -> Seq<char> {
    let names = command_names(command_name);
    "# jj-navi shell integration for "@ + shell.spec_name() + "\n"@ + command_init_text(
        names.0,
        shell,
    ) + command_init_text(names.1, shell)
}

/// Render shell initialization code for the chosen shell.
pub fn render_shell_init(command_name: &str, shell: ShellKind) -> (r: String)
    ensures
        r@ == shell_init_text(command_name@, shell),
{
    let names = shell_command_names(command_name);
    let first = render_command_init(names[0], shell);
    let second = render_command_init(names[1], shell);
    let mut out = String::new();
    out.append("# jj-navi shell integration for ");
    out.append(shell.as_str());
    out.append("\n");
    out.append(first.as_str());
    out.append(second.as_str());
    assert(out@ =~= shell_init_text(command_name@, shell));
    out
}

/// The managed block inserted into a shell rc file.
pub open spec fn shell_install_block_text(command_name: Seq<char>, shell: ShellKind) -> Seq<char> {
    MANAGED_BLOCK_START@ + "\n"@ + "eval \"$(command "@ + command_name + " config shell init "@
        + shell.spec_name() + ")\""@ + "\n"@ + MANAGED_BLOCK_END@ + "\n"@
}

/// Render the managed shell block inserted into a shell rc file.
pub fn render_shell_install_block(command_name: &str, shell: ShellKind) -> (r: String)
    ensures
        r@ == shell_install_block_text(command_name@, shell),
{
    let mut out = String::new();
    out.append(MANAGED_BLOCK_START);
    out.append("\n");
    out.append("eval \"$(command ");
    out.append(command_name);
    out.append(" config shell init ");
    out.append(shell.as_str());
    out.append(")\"");
    out.append("\n");
    out.append(MANAGED_BLOCK_END);
    out.append("\n");
    assert(out@ =~= shell_install_block_text(command_name@, shell));
    out
}

/// `value` with every `'` replaced by `'\''`.
pub open spec fn escape_single_quotes(value: Seq<char>) -> Seq<char>
    decreases value.len(),
{
    if value.len() == 0 {
        Seq::empty()
    } else {
        (if value[0] == '\'' {
            seq!['\'', '\\', '\'', '\'']
        } else {
            seq![value[0]]
        }) + escape_single_quotes(value.drop_first())
    }
}

/// What a POSIX shell reads back from the inside of a single-quoted word:
/// each `'\''` (close the quotes, an escaped quote, open them again) is one
/// quote; every other character stands for itself.
pub open spec fn unescape_single_quotes(s: Seq<char>) -> Seq<char>
    decreases s.len(),
{
    if s.len() == 0 {
        Seq::empty()
    } else if s.len() >= 4 && s.take(4) == seq!['\'', '\\', '\'', '\''] {
        seq!['\''] + unescape_single_quotes(s.skip(4))
    } else {
        seq![s[0]] + unescape_single_quotes(s.drop_first())
    }
}

/// Reading an escaped value back gives the value: the escape loses nothing.
pub proof fn lemma_escape_round_trip(value: Seq<char>)
    ensures
        unescape_single_quotes(escape_single_quotes(value)) == value,
    decreases value.len(),
{
    if value.len() > 0 {
        let rest = value.drop_first();
        lemma_escape_round_trip(rest);
        let e = escape_single_quotes(value);
        let tail = escape_single_quotes(rest);
        if value[0] == '\'' {
            let head = seq!['\'', '\\', '\'', '\''];
            assert(e == head + tail);
            assert(e.take(4) =~= head);
            assert(e.skip(4) =~= tail);
            assert(value =~= seq!['\''] + rest);
        } else {
            assert(e == seq![value[0]] + tail);
            assert(e[0] == value[0]);
            if e.len() >= 4 {
                assert(e.take(4)[0] == e[0]);
            }
            assert(e.drop_first() =~= tail);
            assert(value =~= seq![value[0]] + rest);
        }
    }
}

/// Escape single quotes for POSIX shell single-quoted strings.
pub fn escape_shell_single_quotes(value: &str) -> (r: String)
    ensures
        r@ == escape_single_quotes(value@),
{
    let v = chars_of(value);
    let n = v.len();
    let mut out = String::new();
    let mut i: usize = 0;
    assert(v@.skip(0) =~= v@);
    while i < n
        invariant
            i <= n,
            n == v.len(),
            v@ == value@,
            out@ + escape_single_quotes(v@.skip(i as int)) == escape_single_quotes(value@),
        decreases n - i,
    {
        let ghost before = out@;
        if v[i] == '\'' {
            push_char(&mut out, '\'');
            push_char(&mut out, '\\');
            push_char(&mut out, '\'');
            push_char(&mut out, '\'');
        } else {
            push_char(&mut out, v[i]);
        }
        assert(v@.skip(i as int).drop_first() =~= v@.skip(i + 1));
        assert(out@ + escape_single_quotes(v@.skip(i + 1)) =~= before + escape_single_quotes(
            v@.skip(i as int),
        ));
        i += 1;
    }
    assert(v@.skip(n as int) =~= Seq::<char>::empty());
    assert(out@ =~= out@ + Seq::<char>::empty());
    out
}

/// The line a directive file receives to move the shell to `path`.
pub open spec fn cd_directive_text(path: Seq<char>) -> Seq<char> {
    "cd -- '"@ + escape_single_quotes(path) + "'\n"@
}

/// Render the line a directive file receives to move the shell to `path`.
pub fn render_cd_directive(path: &str) -> (r: String)
    ensures
        r@ == cd_directive_text(path@),
{
    let escaped = escape_shell_single_quotes(path);
    let mut out = String::new();
    out.append("cd -- '");
    out.append(escaped.as_str());
    out.append("'\n");
    assert(out@ =~= cd_directive_text(path@));
    out
}

/// How `switch` sends the shell to a workspace.
#[derive(Debug, PartialEq, Eq)]
pub enum ShellMove {
    /// Append `line` to the directive file `file`, which shell integration
    /// reads once the command ends; print nothing.
    Directive {
        /// The directive file.
        file: String,
        /// The `cd` line to append.
        line: String,
    },
    /// Print this text: the path on a line of its own.
    Print(String),
}

/// How `switch` sends the shell to `display_path`: where shell integration
/// named a directive file that is not blank, a `cd` line for it; else the
/// path, printed on a line of its own.
pub fn shell_move(directive_file: Option<String>, display_path: &str) -> (r: ShellMove)
    ensures
        match directive_file {
            Some(f) => if trim_ws(f@).len() > 0 {
                r matches ShellMove::Directive { file, line } && file@ == f@ && line@ == cd_directive_text(
                    display_path@,
                )
            } else {
                r matches ShellMove::Print(t) && t@ == display_path@ + "\n"@
            },
            None => r matches ShellMove::Print(t) && t@ == display_path@ + "\n"@,
        },
{
    if let Some(f) = directive_file {
        let trimmed = trim(f.as_str());
        if trimmed.as_str().unicode_len() > 0 {
            return ShellMove::Directive { file: f, line: render_cd_directive(display_path) };
        }
    }
    let mut out = display_path.to_owned();
    out.append("\n");
    ShellMove::Print(out)
}

/// The POSIX shell wrapper function for one command.
pub open spec fn posix_command_init_text(command_name: Seq<char>, shell: ShellKind) -> Seq<char> {
    "if command -v "@ + command_name + " >/dev/null 2>&1; then\n    "@ + command_name + "() {\n        if [[ -n \"${COMPLETE:-}\" ]]; then\n            command "@ + command_name + " \"$@\"\n            return\n        fi\n\n        local directive_file exit_code=0 source_exit_code=0\n        directive_file=\"$(mktemp)\"\n        "@ + DIRECTIVE_FILE_ENV_VAR@ + "=\"$directive_file\" command "@ + command_name + " \"$@\" || exit_code=$?\n        if [[ -s \"$directive_file\" ]]; then\n            source \"$directive_file\"\n            source_exit_code=$?\n            if [[ $exit_code -eq 0 ]]; then\n                exit_code=$source_exit_code\n            fi\n        fi\n        rm -f \"$directive_file\"\n        return \"$exit_code\"\n    }\n\n"@ + posix_completion_text(command_name, shell) + "fi\n"@
}

/// Render the POSIX shell wrapper function for one command.
fn render_posix_command_init(command_name: &str, shell: ShellKind) -> (r: String)
    ensures
        r@ == posix_command_init_text(command_name@, shell),
{
    let completion = render_posix_completion_init(command_name, shell);
    let mut out = String::new();
    out.append("if command -v ");
    out.append(command_name);
    out.append(" >/dev/null 2>&1; then\n    ");
    out.append(command_name);
    out.append("() {\n        if [[ -n \"${COMPLETE:-}\" ]]; then\n            command ");
    out.append(command_name);
    out.append(" \"$@\"\n            return\n        fi\n\n        local directive_file exit_code=0 source_exit_code=0\n        directive_file=\"$(mktemp)\"\n        ");
    out.append(DIRECTIVE_FILE_ENV_VAR);
    out.append("=\"$directive_file\" command ");
    out.append(command_name);
    out.append(" \"$@\" || exit_code=$?\n        if [[ -s \"$directive_file\" ]]; then\n            source \"$directive_file\"\n            source_exit_code=$?\n            if [[ $exit_code -eq 0 ]]; then\n                exit_code=$source_exit_code\n            fi\n        fi\n        rm -f \"$directive_file\"\n        return \"$exit_code\"\n    }\n\n");
    out.append(completion.as_str());
    out.append("fi\n");
    assert(out@ =~= posix_command_init_text(command_name@, shell));
    out
}

/// The fish function file for one command.
pub open spec fn fish_function_text(command_name: Seq<char>) -> Seq<char> {
    "function "@ + command_name + "\n    if set -q COMPLETE\n        command "@ + command_name + " $argv\n        return\n    end\n    set -l directive_file (mktemp)\n    set -l exit_code 0\n    set -lx "@ + DIRECTIVE_FILE_ENV_VAR@ + " $directive_file\n    command "@ + command_name + " $argv\n    or set exit_code $status\n    if test -s $directive_file\n        source $directive_file\n        set -l source_exit $status\n        if test $exit_code -eq 0\n            set exit_code $source_exit\n        end\n    end\n    rm -f $directive_file\n    return $exit_code\nend\n"@
}

/// Render a fish function file for a single command.
pub fn render_fish_function(command_name: &str) -> (r: String)
    ensures
        r@ == fish_function_text(command_name@),
{
    let mut out = String::new();
    out.append("function ");
    out.append(command_name);
    out.append("\n    if set -q COMPLETE\n        command ");
    out.append(command_name);
    out.append(" $argv\n        return\n    end\n    set -l directive_file (mktemp)\n    set -l exit_code 0\n    set -lx ");
    out.append(DIRECTIVE_FILE_ENV_VAR);
    out.append(" $directive_file\n    command ");
    out.append(command_name);
    out.append(" $argv\n    or set exit_code $status\n    if test -s $directive_file\n        source $directive_file\n        set -l source_exit $status\n        if test $exit_code -eq 0\n            set exit_code $source_exit\n        end\n    end\n    rm -f $directive_file\n    return $exit_code\nend\n");
    assert(out@ =~= fish_function_text(command_name@));
    out
}

/// The fish completion file for one command.
pub open spec fn fish_completion_text(command_name: Seq<char>) -> Seq<char> {
    "complete --keep-order --exclusive --command "@ + command_name + " --arguments \"(env COMPLETE=fish command "@ + command_name + " -- (commandline --current-process --tokenize --cut-at-cursor) (commandline --current-token))\"\n"@
}

/// Render a fish completion file for a single command.
pub fn render_fish_completion(command_name: &str) -> (r: String)
    ensures
        r@ == fish_completion_text(command_name@),
{
    let mut out = String::new();
    out.append("complete --keep-order --exclusive --command ");
    out.append(command_name);
    out.append(" --arguments \"(env COMPLETE=fish command ");
    out.append(command_name);
    out.append(" -- (commandline --current-process --tokenize --cut-at-cursor) (commandline --current-token))\"\n");
    assert(out@ =~= fish_completion_text(command_name@));
    out
}

/// The lazy completion registration for one command in bash or zsh.
pub open spec fn posix_completion_text(command_name: Seq<char>, shell: ShellKind) -> Seq<char> {
    match shell {
        ShellKind::Bash => "    _"@ + command_name + "_lazy_complete() {\n        if ! declare -F _clap_complete_"@ + command_name + " >/dev/null; then\n            eval \"$(COMPLETE=bash command "@ + command_name + " 2>/dev/null)\" || return\n        fi\n        _clap_complete_"@ + command_name + " \"$@\"\n    }\n\n    complete -o nospace -o bashdefault -F _"@ + command_name + "_lazy_complete "@ + command_name + "\n"@,
        ShellKind::Zsh => "    _"@ + command_name + "_lazy_complete() {\n        if ! (( $+functions[_clap_dynamic_completer_"@ + command_name + "] )); then\n            eval \"$(COMPLETE=zsh command "@ + command_name + " 2>/dev/null)\" || return\n        fi\n        _clap_dynamic_completer_"@ + command_name + " \"$@\"\n    }\n\n    if (( $+functions[compdef] )); then\n        compdef _"@ + command_name + "_lazy_complete "@ + command_name + "\n    fi\n"@,
    }
}

/// Render the lazy completion registration for one command.
fn render_posix_completion_init(command_name: &str, shell: ShellKind) -> (r: String)
    ensures
        r@ == posix_completion_text(command_name@, shell),
{
    let mut out = String::new();
    match shell {
        ShellKind::Bash => {
            out.append("    _");
            out.append(command_name);
            out.append("_lazy_complete() {\n        if ! declare -F _clap_complete_");
            out.append(command_name);
            out.append(" >/dev/null; then\n            eval \"$(COMPLETE=bash command ");
            out.append(command_name);
            out.append(" 2>/dev/null)\" || return\n        fi\n        _clap_complete_");
            out.append(command_name);
            out.append(" \"$@\"\n    }\n\n    complete -o nospace -o bashdefault -F _");
            out.append(command_name);
            out.append("_lazy_complete ");
            out.append(command_name);
            out.append("\n");
        },
        ShellKind::Zsh => {
            out.append("    _");
            out.append(command_name);
            out.append("_lazy_complete() {\n        if ! (( $+functions[_clap_dynamic_completer_");
            out.append(command_name);
            out.append("] )); then\n            eval \"$(COMPLETE=zsh command ");
            out.append(command_name);
            out.append(" 2>/dev/null)\" || return\n        fi\n        _clap_dynamic_completer_");
            out.append(command_name);
            out.append(" \"$@\"\n    }\n\n    if (( $+functions[compdef] )); then\n        compdef _");
            out.append(command_name);
            out.append("_lazy_complete ");
            out.append(command_name);
            out.append("\n    fi\n");
        },
    }
    assert(out@ =~= posix_completion_text(command_name@, shell));
    out
}


/// Positions of the non-overlapping occurrences of a non-empty `p` in `s`
/// found scanning left to right from `from`.
pub open spec fn match_positions(s: Seq<char>, p: Seq<char>, from: int) -> Seq<int>
    decreases s.len() - from,
{
    if p.len() == 0 || from < 0 || from + p.len() > s.len() {
        Seq::empty()
    } else if occurs_at(s, p, from) {
        seq![from] + match_positions(s, p, from + p.len())
    } else {
        match_positions(s, p, from + 1)
    }
}

/// The positions of the non-overlapping occurrences of `p` in `v`.
fn find_matches(v: &Vec<char>, p: &Vec<char>) -> (r: Vec<usize>)
    requires
        p.len() > 0,
    ensures
        r@.map_values(|x: usize| x as int) == match_positions(v@, p@, 0),
{
    let mut r: Vec<usize> = Vec::new();
    let mut i: usize = 0;
    while i <= v.len() && p.len() <= v.len() - i
        invariant
            p.len() > 0,
            i <= v.len() + p.len(),
            r@.map_values(|x: usize| x as int) + match_positions(v@, p@, i as int) == match_positions(
                v@,
                p@,
                0,
            ),
        decreases v.len() + p.len() - i,
    {
        let ghost before = r@.map_values(|x: usize| x as int);
        if matches_at(v, p, i) {
            r.push(i);
            assert(r@.map_values(|x: usize| x as int) =~= before.push(i as int));
            assert(match_positions(v@, p@, i as int) == seq![i as int] + match_positions(
                v@,
                p@,
                i + p.len(),
            ));
            assert(r@.map_values(|x: usize| x as int) + match_positions(v@, p@, i + p.len())
                =~= before + match_positions(v@, p@, i as int));
            i = i + p.len();
        } else {
            assert(match_positions(v@, p@, i as int) == match_positions(v@, p@, i + 1));
            i = i + 1;
        }
    }
    assert(match_positions(v@, p@, i as int) =~= Seq::<int>::empty());
    assert(r@.map_values(|x: usize| x as int) =~= r@.map_values(|x: usize| x as int) + Seq::<int>::empty());
    r
}

/// Where the managed block stands in an rc file, in UTF-8 bytes.
#[derive(Clone, Copy, Debug, PartialEq, Eq)]
pub enum ManagedBlockState {
    /// No marker is present.
    Missing,
    /// One start and one end marker, in order: the byte offset of the start
    /// marker, and the byte offset just past the end marker.
    Present { start: usize, end: usize },
    /// The markers are inconsistent.
    Invalid(&'static str),
}

/// Start-marker positions in `s`.
pub open spec fn block_starts(s: Seq<char>) -> Seq<int> {
    match_positions(s, MANAGED_BLOCK_START@, 0)
}

/// End-marker positions in `s`.
pub open spec fn block_ends(s: Seq<char>) -> Seq<int> {
    match_positions(s, MANAGED_BLOCK_END@, 0)
}

/// Neither marker occurs.
pub open spec fn block_missing(s: Seq<char>) -> bool {
    block_starts(s).len() == 0 && block_ends(s).len() == 0
}

/// One marker of each kind occurs, the start before the end.
pub open spec fn block_present(s: Seq<char>) -> bool {
    &&& block_starts(s).len() == 1
    &&& block_ends(s).len() == 1
    &&& block_starts(s)[0] <= block_ends(s)[0]
}

/// Why the markers are inconsistent, when they are.
pub open spec fn block_invalid_message(s: Seq<char>) -> Seq<char> {
    if block_starts(s).len() == 1 && block_ends(s).len() == 1 {
        "managed block markers are out of order"@
    } else if block_starts(s).len() == 0 || block_ends(s).len() == 0 {
        "managed block markers are unbalanced"@
    } else {
        "managed block markers are duplicated"@
    }
}

/// Locate the managed block in an rc file, in characters.
fn locate_block(existing: &str) -> (r: ManagedBlockState)
    ensures
        block_missing(existing@) ==> r is Missing,
        block_present(existing@) ==> r == (ManagedBlockState::Present {
            start: block_starts(existing@)[0] as usize,
            end: (block_ends(existing@)[0] + MANAGED_BLOCK_END@.len()) as usize,
        }),
        !block_missing(existing@) && !block_present(existing@) ==> (r matches ManagedBlockState::Invalid(m)
            && m@ == block_invalid_message(existing@)),
{
    let v = chars_of(existing);
    let start_marker = chars_of(MANAGED_BLOCK_START);
    let end_marker = chars_of(MANAGED_BLOCK_END);
    proof {
        reveal_strlit("# >>> jj-navi shell init >>>");
        reveal_strlit("# <<< jj-navi shell init <<<");
    }
    let starts = find_matches(&v, &start_marker);
    let ends = find_matches(&v, &end_marker);
    if starts.len() == 0 && ends.len() == 0 {
        ManagedBlockState::Missing
    } else if starts.len() == 1 && ends.len() == 1 {
        let start = starts[0];
        let end = ends[0];
        if end < start {
            ManagedBlockState::Invalid("managed block markers are out of order")
        } else {
            proof {
                let m = match_positions(v@, end_marker@, 0);
                lemma_match_positions_bounds(v@, end_marker@, 0);
                assert(m[0] == ends@.map_values(|x: usize| x as int)[0]);
                assert(occurs_at(v@, end_marker@, m[0]));
                assert(end as int == m[0]);
                assert(m[0] + end_marker@.len() <= v@.len());
                assert(end + end_marker.len() <= v.len());
            }
            ManagedBlockState::Present { start, end: end + end_marker.len() }
        }
    } else if starts.len() == 0 || ends.len() == 0 {
        ManagedBlockState::Invalid("managed block markers are unbalanced")
    } else {
        ManagedBlockState::Invalid("managed block markers are duplicated")
    }
}

/// Locate the managed block in an rc file; a present block is given by the
/// byte offset of its start marker and the byte offset just past its end
/// marker.
pub fn inspect_managed_block(existing: &str) -> (r: ManagedBlockState)
    ensures
        block_missing(existing@) ==> r is Missing,
        block_present(existing@) ==> r == (ManagedBlockState::Present {
            start: byte_len(existing@.take(block_starts(existing@)[0])) as usize,
            end: byte_len(existing@.take(block_ends(existing@)[0] + MANAGED_BLOCK_END@.len())) as usize,
        }),
        !block_missing(existing@) && !block_present(existing@) ==> (r matches ManagedBlockState::Invalid(m)
            && m@ == block_invalid_message(existing@)),
{
    match locate_block(existing) {
        ManagedBlockState::Present { start, end } => {
            let v = chars_of(existing);
            proof {
                lemma_match_positions_bounds(v@, MANAGED_BLOCK_END@, 0);
                lemma_match_positions_bounds(v@, MANAGED_BLOCK_START@, 0);
                if !block_present(existing@) {
                    assert(block_missing(existing@));
                }
            }
            let mut head = String::new();
            append_range(&mut head, &v, 0, start);
            assert(head@ =~= existing@.take(start as int));
            let mut through = String::new();
            append_range(&mut through, &v, 0, end);
            assert(through@ =~= existing@.take(end as int));
            ManagedBlockState::Present { start: utf8_len(head.as_str()), end: utf8_len(through.as_str()) }
        },
        other => other,
    }
}

/// Every position that `match_positions` reports is a real occurrence.
pub proof fn lemma_match_positions_bounds(s: Seq<char>, p: Seq<char>, from: int)
    ensures
        forall|k: int|
            0 <= k < match_positions(s, p, from).len() ==> occurs_at(
                s,
                p,
                #[trigger] match_positions(s, p, from)[k],
            ) && match_positions(s, p, from)[k] >= from,
    decreases s.len() - from,
{
    if p.len() == 0 || from < 0 || from + p.len() > s.len() {
    } else if occurs_at(s, p, from) {
        lemma_match_positions_bounds(s, p, from + p.len());
        assert forall|k: int| 0 <= k < match_positions(s, p, from).len() implies occurs_at(
            s,
            p,
            #[trigger] match_positions(s, p, from)[k],
        ) && match_positions(s, p, from)[k] >= from by {
            if k > 0 {
                assert(match_positions(s, p, from)[k] == match_positions(s, p, from + p.len())[k - 1]);
            }
        }
    } else {
        lemma_match_positions_bounds(s, p, from + 1);
        assert(match_positions(s, p, from) == match_positions(s, p, from + 1));
    }
}

/// `s` with a newline added unless it is empty or already ends with one.
pub open spec fn newline_if_unterminated(s: Seq<char>) -> Seq<char> {
    if s.len() > 0 && s.last() != '\n' {
        s.push('\n')
    } else {
        s
    }
}

/// `s` with a newline added unless it already ends with one.
pub open spec fn newline_terminated(s: Seq<char>) -> Seq<char> {
    if s.len() > 0 && s.last() == '\n' {
        s
    } else {
        s.push('\n')
    }
}

/// `s` without its leading newlines.
pub open spec fn trim_leading_newlines(s: Seq<char>) -> Seq<char>
    decreases s.len(),
{
    if s.len() > 0 && s[0] == '\n' {
        trim_leading_newlines(s.drop_first())
    } else {
        s
    }
}

/// An rc file whose present block, at `start..end`, is replaced by `block`.
pub open spec fn upsert_present_text(existing: Seq<char>, block: Seq<char>, start: int, end: int) -> Seq<char> {
    let head = newline_if_unterminated(existing.take(start)) + block;
    let suffix = trim_leading_newlines(existing.skip(end));
    if suffix.len() == 0 {
        head
    } else {
        newline_terminated(newline_terminated(head) + suffix)
    }
}

/// An rc file without a block, with `block` appended after a blank line.
pub open spec fn upsert_missing_text(existing: Seq<char>, block: Seq<char>) -> Seq<char> {
    let a = newline_if_unterminated(existing);
    let b = if a.len() > 0 && !(a.len() >= 2 && a[a.len() - 1] == '\n' && a[a.len() - 2] == '\n') {
        a.push('\n')
    } else {
        a
    };
    b + block
}

/// Add a newline to `out` unless it is empty or already ends with one.
fn push_newline_if_unterminated(out: &mut Vec<char>)
    ensures
        final(out)@ == newline_if_unterminated(old(out)@),
{
    if out.len() > 0 && out[out.len() - 1] != '\n' {
        out.push('\n');
    }
}

/// Add a newline to `out` unless it already ends with one.
fn push_newline_terminated(out: &mut Vec<char>)
    ensures
        final(out)@ == newline_terminated(old(out)@),
{
    if !(out.len() > 0 && out[out.len() - 1] == '\n') {
        out.push('\n');
    }
}

/// Append `v[from..to]` to `out`.
fn extend_range(out: &mut Vec<char>, v: &Vec<char>, from: usize, to: usize)
    requires
        from <= to <= v.len(),
    ensures
        final(out)@ == old(out)@ + v@.subrange(from as int, to as int),
{
    let mut i = from;
    while i < to
        invariant
            from <= i <= to <= v.len(),
            out@ == old(out)@ + v@.subrange(from as int, i as int),
        decreases to - i,
    {
        out.push(v[i]);
        i += 1;
        assert(v@.subrange(from as int, i as int) =~= v@.subrange(from as int, i - 1) + seq![v@[i - 1]]);
    }
}

/// Insert or replace the managed block in an rc file's text.
///
/// A present block is replaced in place; a missing one is appended after a
/// blank line; inconsistent markers are refused.
pub fn upsert_managed_block(existing: &str, block: &str, rc_path: &str) -> (r: Result<String>)
    ensures
        block_missing(existing@) ==> (r matches Ok(t) && t@ == upsert_missing_text(existing@, block@)),
        block_present(existing@) ==> (r matches Ok(t) && t@ == upsert_present_text(
            existing@,
            block@,
            block_starts(existing@)[0],
            block_ends(existing@)[0] + MANAGED_BLOCK_END@.len(),
        )),
        !block_missing(existing@) && !block_present(existing@) ==> (r matches Err(e) && e matches Error::InvalidShellRcFile { path, message } && path@ == rc_path@ && message@
            == block_invalid_message(existing@)),
{
    let v = chars_of(existing);
    let b = chars_of(block);
    match locate_block(existing) {
        ManagedBlockState::Present { start, end } => {
            proof {
                lemma_match_positions_bounds(v@, MANAGED_BLOCK_END@, 0);
                lemma_match_positions_bounds(v@, MANAGED_BLOCK_START@, 0);
                if !block_present(existing@) {
                    assert(block_missing(existing@));
                }
            }
            let mut out: Vec<char> = Vec::new();
            extend_range(&mut out, &v, 0, start);
            assert(out@ =~= existing@.take(start as int));
            push_newline_if_unterminated(&mut out);
            extend_range(&mut out, &b, 0, b.len());
            assert(b@.subrange(0, b.len() as int) =~= b@);
            let ghost head = out@;
            let mut k = end;
            assert(v@.subrange(k as int, v.len() as int) =~= existing@.skip(end as int));
            while k < v.len() && v[k] == '\n'
                invariant
                    end <= k <= v.len(),
                    v@ == existing@,
                    trim_leading_newlines(v@.subrange(k as int, v.len() as int))
                        == trim_leading_newlines(existing@.skip(end as int)),
                decreases v.len() - k,
            {
                assert(v@.subrange(k as int, v.len() as int).drop_first() =~= v@.subrange(k + 1, v.len() as int));
                k += 1;
            }
            assert(trim_leading_newlines(v@.subrange(k as int, v.len() as int)) == v@.subrange(k as int, v.len() as int));
            if k < v.len() {
                push_newline_terminated(&mut out);
                extend_range(&mut out, &v, k, v.len());
                push_newline_terminated(&mut out);
            }
            Ok(string_of(&out))
        },
        ManagedBlockState::Invalid(message) => {
            Err(Error::InvalidShellRcFile { path: rc_path.to_owned(), message: message.to_owned() })
        },
        ManagedBlockState::Missing => {
            let mut out: Vec<char> = Vec::new();
            extend_range(&mut out, &v, 0, v.len());
            assert(v@.subrange(0, v.len() as int) =~= existing@);
            push_newline_if_unterminated(&mut out);
            if out.len() > 0 && !(out.len() >= 2 && out[out.len() - 1] == '\n' && out[out.len() - 2] == '\n') {
                out.push('\n');
            }
            extend_range(&mut out, &b, 0, b.len());
            assert(b@.subrange(0, b.len() as int) =~= block@);
            Ok(string_of(&out))
        },
    }
}

} // verus!
