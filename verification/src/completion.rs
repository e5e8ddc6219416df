//! The decisions of shell completion: which words a request completes,
//! which workspaces fit, and how candidates are written back.

use vstd::prelude::*;
use vstd::string::*;

use crate::text::{chars_of, digits_value, is_ascii_digit, join_parts, parse_digits, str_equal, views_of};

verus! {

/// A completion candidate: the value, and help text where there is some.
#[derive(Debug)]
pub struct Candidate {
    /// The completed value.
    pub value: String,
    /// Help shown beside it.
    pub help: Option<String>,
}

impl Clone for Candidate {
    fn clone(&self) -> (r: Self)
        ensures
            r == *self,
    {
        Candidate {
            value: self.value.clone(),
            help: match &self.help {
                Some(h) => Some(h.clone()),
                None => None,
            },
        }
    }
}

/// The values of the candidates.
pub open spec fn candidate_values(s: Seq<Candidate>) -> Seq<Seq<char>> {
    s.map_values(|c: Candidate| c.value@)
}

/// The shell a completion request names, from `COMPLETE`: none when unset,
/// empty or `0`.
pub fn completion_shell(complete: Option<&str>) -> (r: Option<String>)
    ensures
        match complete {
            Some(s) => if s@.len() == 0 || s@ == "0"@ {
                r is None
            } else {
                r matches Some(x) && x@ == s@
            },
            None => r is None,
        },
{
    match complete {
        Some(s) => {
            if s.unicode_len() == 0 || str_equal(s, "0") {
                None
            } else {
                Some(s.to_owned())
            }
        },
        None => None,
    }
}

/// The position of the first `--` in `s`.
pub open spec fn escape_position(s: Seq<Seq<char>>) -> Option<int>
    decreases s.len(),
{
    if s.len() == 0 {
        None
    } else if s[0] == "--"@ {
        Some(0)
    } else {
        match escape_position(s.drop_first()) {
            Some(k) => Some(k + 1),
            None => None,
        }
    }
}

/// The words a completion request completes: the arguments after the
/// program, from just past the first `--`; none when there is no `--`.
pub open spec fn completion_words(argv: Seq<Seq<char>>) -> Seq<Seq<char>> {
    let args = argv.drop_first();
    match escape_position(args) {
        Some(k) => args.skip(k + 1),
        None => Seq::empty(),
    }
}

/// The words of a completion request.
pub fn completion_args(argv: &[String]) -> (r: Vec<String>)
    requires
        argv@.len() > 0,
    ensures
        views_of(r@) == completion_words(views_of(argv@)),
{
    let ghost args = views_of(argv@).drop_first();
    let mut i: usize = 1;
    proof {
        reveal_strlit("--");
    }
    assert(views_of(argv@).skip(1) =~= args);
    while i < argv.len() && !str_equal(argv[i].as_str(), "--")
        invariant
            1 <= i <= argv@.len(),
            args == views_of(argv@).drop_first(),
            escape_position(args) == match escape_position(views_of(argv@).skip(i as int)) {
                Some(k) => Some(k + i - 1),
                None => None,
            },
        decreases argv@.len() - i,
    {
        assert(views_of(argv@).skip(i as int).drop_first() =~= views_of(argv@).skip(i + 1));
        assert(views_of(argv@).skip(i as int)[0] == argv@[i as int]@);
        i += 1;
    }
    let mut out: Vec<String> = Vec::new();
    if i == argv.len() {
        assert(views_of(argv@).skip(i as int) =~= Seq::<Seq<char>>::empty());
        assert(views_of(out@) =~= Seq::<Seq<char>>::empty());
        return out;
    }
    assert(views_of(argv@).skip(i as int)[0] == argv@[i as int]@);
    let mut j = i + 1;
    while j < argv.len()
        invariant
            i < j <= argv@.len(),
            views_of(out@) == views_of(argv@).subrange(i + 1, j as int),
        decreases argv@.len() - j,
    {
        let word = argv[j].clone();
        assert(word@ == argv@[j as int]@);
        let ghost before = out@;
        out.push(word);
        assert(views_of(out@) =~= views_of(before).push(argv@[j as int]@));
        assert(views_of(out@) =~= views_of(argv@).subrange(i + 1, j + 1));
        j += 1;
    }
    assert(args.skip(i as int) =~= views_of(argv@).subrange(i + 1, argv@.len() as int));
    out
}

/// The digits of an unsigned number's text: without a leading `+`.
pub open spec fn unsigned_digits(s: Seq<char>) -> Seq<char> {
    if s.len() > 0 && s[0] == '+' {
        s.drop_first()
    } else {
        s
    }
}

/// Whether every character is a decimal digit.
pub open spec fn digits_only(d: Seq<char>) -> bool {
    forall|i: int| 0 <= i < d.len() ==> is_ascii_digit(#[trigger] d[i])
}

/// The `usize` that `str::parse::<usize>` reads: an optional `+`, then one
/// or more digits spelling a number that fits.
pub open spec fn usize_text(s: Seq<char>) -> Option<usize> {
    let d = unsigned_digits(s);
    if d.len() > 0 && digits_only(d) && digits_value(d) <= usize::MAX {
        Some(digits_value(d) as usize)
    } else {
        None
    }
}

/// The index of the word being completed: `_CLAP_COMPLETE_INDEX` when it
/// reads as a number, else the last word.
pub open spec fn completion_index_of(index_var: Option<Seq<char>>, word_count: nat) -> int {
    match index_var {
        Some(t) => match usize_text(t) {
            Some(i) => i as int,
            None => if word_count == 0 { 0 } else { word_count - 1 },
        },
        None => if word_count == 0 { 0 } else { word_count - 1 },
    }
}

/// Read a `usize` as `str::parse::<usize>` does.
pub fn parse_usize(t: &str) -> (r: Option<usize>)
    ensures
        r == usize_text(t@),
{
    let v = chars_of(t);
    let mut start: usize = 0;
    if v.len() > 0 && v[0] == '+' {
        start = 1;
    }
    let ghost d = v@.subrange(start as int, v@.len() as int);
    assert(d =~= unsigned_digits(t@));
    if start == v.len() {
        return None;
    }
    let mut i = start;
    while i < v.len()
        invariant
            start <= i <= v@.len(),
            v@ == t@,
            d == unsigned_digits(t@),
            d == v@.subrange(start as int, v@.len() as int),
            forall|j: int| start <= j < i ==> is_ascii_digit(#[trigger] v@[j]),
        decreases v@.len() - i,
    {
        if !(v[i] >= '0' && v[i] <= '9') {
            assert(d[i - start] == v@[i as int]);
            assert(!is_ascii_digit(d[i - start]));
            assert(!digits_only(d));
            return None;
        }
        i += 1;
    }
    assert forall|j: int| 0 <= j < d.len() implies is_ascii_digit(#[trigger] d[j]) by {
        assert(d[j] == v@[start + j]);
    }
    match parse_digits(&v, start, v.len(), usize::MAX as u64) {
        Some(x) => Some(x as usize),
        None => None,
    }
}

/// Pick the index of the word being completed.
pub fn completion_index(index_var: Option<&str>, word_count: usize) -> (r: usize)
    ensures
        r as int == completion_index_of(
            match index_var {
                Some(t) => Some(t@),
                None => None,
            },
            word_count as nat,
        ),
{
    let fallback = if word_count == 0 { 0 } else { word_count - 1 };
    match index_var {
        Some(t) => match parse_usize(t) {
            Some(i) => i,
            None => fallback,
        },
        None => fallback,
    }
}

/// Where the subcommand is among the words: after the program name when
/// the words start with it, else first; none without words.
pub open spec fn command_index_of(bin_name: Seq<char>, args: Seq<Seq<char>>) -> Option<int> {
    if args.len() == 0 {
        None
    } else if args[0] == bin_name {
        Some(1)
    } else {
        Some(0)
    }
}

/// Find the subcommand among the words.
pub fn command_index(bin_name: &str, args: &[String]) -> (r: Option<usize>)
    ensures
        match r {
            Some(i) => command_index_of(bin_name@, views_of(args@)) == Some(i as int),
            None => command_index_of(bin_name@, views_of(args@)) is None,
        },
{
    if args.len() == 0 {
        return None;
    }
    assert(views_of(args@)[0] == args@[0]@);
    if str_equal(args[0].as_str(), bin_name) {
        Some(1)
    } else {
        Some(0)
    }
}

/// Whether `p` starts `s`.
pub open spec fn has_prefix(s: Seq<char>, p: Seq<char>) -> bool {
    p.len() <= s.len() && s.take(p.len() as int) == p
}

fn starts_with(s: &str, p: &str) -> (r: bool)
    ensures
        r == has_prefix(s@, p@),
{
    let sv = chars_of(s);
    let pv = chars_of(p);
    if pv.len() > sv.len() {
        return false;
    }
    let mut i: usize = 0;
    while i < pv.len()
        invariant
            pv.len() <= sv.len(),
            sv@ == s@,
            pv@ == p@,
            i <= pv.len(),
            forall|k: int| 0 <= k < i ==> sv@[k] == pv@[k],
        decreases pv.len() - i,
    {
        if sv[i] != pv[i] {
            assert(sv@.take(pv@.len() as int)[i as int] != pv@[i as int]);
            return false;
        }
        i += 1;
    }
    assert(sv@.take(pv@.len() as int) =~= pv@);
    true
}

/// The workspaces whose names start with `prefix`, in order.
pub open spec fn matching_workspaces(workspaces: Seq<Seq<char>>, prefix: Seq<char>) -> Seq<Seq<char>> {
    workspaces.filter(|w: Seq<char>| has_prefix(w, prefix))
}

/// Candidates for a workspace argument: none when no workspace is known,
/// else those whose names start with `prefix`.
pub fn complete_workspaces_for_prefix(workspaces: &[String], prefix: &str) -> (r: Option<Vec<Candidate>>)
    ensures
        workspaces@.len() == 0 ==> r is None,
        workspaces@.len() > 0 ==> (r matches Some(c) && candidate_values(c@) == matching_workspaces(
            views_of(workspaces@),
            prefix@,
        ) && forall|k: int| 0 <= k < c@.len() ==> (#[trigger] c@[k]).help is None),
{
    if workspaces.len() == 0 {
        return None;
    }
    let ghost ws = views_of(workspaces@);
    let mut out: Vec<Candidate> = Vec::new();
    let mut i: usize = 0;
    assert(ws.take(0) =~= Seq::<Seq<char>>::empty());
    while i < workspaces.len()
        invariant
            i <= workspaces@.len(),
            ws == views_of(workspaces@),
            candidate_values(out@) == matching_workspaces(ws.take(i as int), prefix@),
            forall|k: int| 0 <= k < out@.len() ==> (#[trigger] out@[k]).help is None,
        decreases workspaces@.len() - i,
    {
        assert(ws.take(i + 1) =~= ws.take(i as int).push(ws[i as int]));
        assert(ws[i as int] == workspaces@[i as int]@);
        proof {
            ws.take(i as int).lemma_filter_push(ws[i as int], |w: Seq<char>| has_prefix(w, prefix@));
        }
        if starts_with(workspaces[i].as_str(), prefix) {
            out.push(Candidate { value: workspaces[i].clone(), help: None });
            assert(candidate_values(out@) =~= candidate_values(out@.drop_last()).push(ws[i as int]));
        }
        i += 1;
    }
    assert(ws.take(i as int) =~= ws);
    Some(out)
}

/// Candidates for a workspace value being typed: none for an option,
/// else the workspaces whose names start with it.
pub fn complete_workspace_value(current: &str, workspaces: &[String]) -> (r: Vec<Candidate>)
    ensures
        has_prefix(current@, "-"@) ==> r@.len() == 0,
        !has_prefix(current@, "-"@) ==> candidate_values(r@) == matching_workspaces(views_of(workspaces@), current@),
{
    if starts_with(current, "-") {
        return Vec::new();
    }
    match complete_workspaces_for_prefix(workspaces, current) {
        Some(c) => c,
        None => {
            assert(views_of(workspaces@) =~= Seq::<Seq<char>>::empty());
            assert(matching_workspaces(views_of(workspaces@), current@) =~= Seq::<Seq<char>>::empty());
            Vec::new()
        },
    }
}

/// `c` with `prefix` before its value.
fn add_prefix(c: Candidate, prefix: &str) -> (r: Candidate)
    ensures
        r.value@ == prefix@ + c.value@,
        r.help == c.help,
{
    let mut value = prefix.to_owned();
    value.append(c.value.as_str());
    Candidate { value, help: c.help }
}

/// The options of `merge` that take a workspace.
pub open spec fn is_workspace_option(arg: Seq<char>) -> bool {
    arg == "--from"@ || arg == "-f"@ || arg == "--into"@ || arg == "-i"@
}

/// The first of `--from=`, `--into=`, `-f=`, `-i=` that starts `current`.
pub open spec fn inline_option_of(current: Seq<char>) -> Option<Seq<char>> {
    if has_prefix(current, "--from="@) {
        Some("--from="@)
    } else if has_prefix(current, "--into="@) {
        Some("--into="@)
    } else if has_prefix(current, "-f="@) {
        Some("-f="@)
    } else if has_prefix(current, "-i="@) {
        Some("-i="@)
    } else {
        None
    }
}

/// What completing a word of `merge` offers: workspaces after an option
/// that takes one, or after such an option written with `=`, from the
/// second word on.
pub open spec fn merge_context_of(
    args: Seq<Seq<char>>,
    index: int,
    command_index: int,
    current: Seq<char>,
    workspaces: Seq<Seq<char>>,
) -> Option<Seq<Seq<char>>> {
    let previous_takes_workspace = index >= 1 && index - 1 < args.len() && is_workspace_option(args[index - 1]);
    if previous_takes_workspace {
        if workspaces.len() == 0 {
            None
        } else {
            Some(matching_workspaces(workspaces, current))
        }
    } else if index < command_index || index - command_index < 2 {
        None
    } else {
        match inline_option_of(current) {
            None => None,
            Some(option) => if workspaces.len() == 0 {
                None
            } else {
                Some(
                    matching_workspaces(workspaces, current.skip(option.len() as int)).map_values(
                        |w: Seq<char>| option + w,
                    ),
                )
            },
        }
    }
}

/// Complete a workspace word of `merge`.
pub fn complete_merge_workspace_context(
    args: &[String],
    index: usize,
    command_index: usize,
    current: &str,
    workspaces: &[String],
) -> (r: Option<Vec<Candidate>>)
    ensures
        match merge_context_of(views_of(args@), index as int, command_index as int, current@, views_of(workspaces@)) {
            None => r is None,
            Some(values) => r matches Some(c) && candidate_values(c@) == values,
        },
{
    proof {
        reveal_strlit("--from");
        reveal_strlit("-f");
        reveal_strlit("--into");
        reveal_strlit("-i");
    }
    if index >= 1 && index - 1 < args.len() {
        let previous = args[index - 1].as_str();
        assert(views_of(args@)[index - 1] == args@[index - 1]@);
        if str_equal(previous, "--from") || str_equal(previous, "-f") || str_equal(previous, "--into") || str_equal(
            previous,
            "-i",
        ) {
            return complete_workspaces_for_prefix(workspaces, current);
        }
    }
    if index < command_index || index - command_index < 2 {
        return None;
    }
    let option: &str = if starts_with(current, "--from=") {
        "--from="
    } else if starts_with(current, "--into=") {
        "--into="
    } else if starts_with(current, "-f=") {
        "-f="
    } else if starts_with(current, "-i=") {
        "-i="
    } else {
        return None;
    };
    let cv = chars_of(current);
    let ov = chars_of(option);
    let mut rest = String::new();
    let mut k = ov.len();
    while k < cv.len()
        invariant
            ov.len() <= k <= cv.len(),
            rest@ == cv@.subrange(ov@.len() as int, k as int),
        decreases cv.len() - k,
    {
        crate::text::push_char(&mut rest, cv[k]);
        k += 1;
    }
    assert(rest@ =~= current@.skip(option@.len() as int));
    let found = match complete_workspaces_for_prefix(workspaces, rest.as_str()) {
        Some(c) => c,
        None => return None,
    };
    let ghost values = candidate_values(found@);
    let total = found.len();
    let mut out: Vec<Candidate> = Vec::new();
    let mut i: usize = 0;
    let mut input = found;
    while input.len() > 0
        invariant
            values.len() == total,
            i + input@.len() == values.len(),
            candidate_values(input@) == values.skip(i as int),
            candidate_values(out@) == values.take(i as int).map_values(|w: Seq<char>| option@ + w),
        decreases input@.len(),
    {
        let ghost before = input@;
        let c = input.remove(0);
        assert(candidate_values(before)[0] == c.value@);
        assert(candidate_values(input@) =~= candidate_values(before).drop_first());
        assert(values.skip(i as int)[0] == values[i as int]);
        assert(c.value@ == values[i as int]);
        let ghost prev_out = out@;
        let pc = add_prefix(c, option);
        out.push(pc);
        assert(candidate_values(out@) =~= candidate_values(prev_out).push(option@ + values[i as int]));
        assert(values.take(i + 1) =~= values.take(i as int).push(values[i as int]));
        assert(candidate_values(out@) =~= values.take(i + 1).map_values(|w: Seq<char>| option@ + w));
        i += 1;
        assert(values.skip(i as int) =~= values.skip(i - 1).drop_first());
    }
    assert(values.take(i as int) =~= values);
    Some(out)
}

/// What completing a word offers from the workspace list: a workspace for
/// the first argument of `switch`, `cd`, `remove` or `rm`, and the
/// workspace words of `merge`; nothing for an option word.
pub open spec fn workspace_context_of(
    bin_name: Seq<char>,
    args: Seq<Seq<char>>,
    index: int,
    workspaces: Seq<Seq<char>>,
) -> Option<Seq<Seq<char>>> {
    if !(0 <= index < args.len()) || has_prefix(args[index], "-"@) {
        None
    } else {
        match command_index_of(bin_name, args) {
            None => None,
            Some(ci) => if !(ci < args.len()) || index < ci {
                None
            } else {
                let command = args[ci];
                if (command == "switch"@ || command == "cd"@ || command == "remove"@ || command == "rm"@) && index - ci
                    == 1 {
                    if workspaces.len() == 0 {
                        None
                    } else {
                        Some(matching_workspaces(workspaces, args[index]))
                    }
                } else if command == "merge"@ {
                    merge_context_of(args, index, ci, args[index], workspaces)
                } else {
                    None
                }
            },
        }
    }
}

/// Complete a word from the workspace list, where the context calls for a
/// workspace.
pub fn complete_workspace_context(bin_name: &str, args: &[String], index: usize, workspaces: &[String]) -> (r: Option<
    Vec<Candidate>,
>)
    ensures
        match workspace_context_of(bin_name@, views_of(args@), index as int, views_of(workspaces@)) {
            None => r is None,
            Some(values) => r matches Some(c) && candidate_values(c@) == values,
        },
{
    proof {
        reveal_strlit("-");
        reveal_strlit("switch");
        reveal_strlit("cd");
        reveal_strlit("remove");
        reveal_strlit("rm");
        reveal_strlit("merge");
    }
    if index >= args.len() {
        return None;
    }
    let current = args[index].as_str();
    assert(views_of(args@)[index as int] == current@);
    if starts_with(current, "-") {
        return None;
    }
    let ci = match command_index(bin_name, args) {
        Some(ci) => ci,
        None => return None,
    };
    if ci >= args.len() || index < ci {
        return None;
    }
    let command = args[ci].as_str();
    assert(views_of(args@)[ci as int] == command@);
    if (str_equal(command, "switch") || str_equal(command, "cd") || str_equal(command, "remove") || str_equal(
        command,
        "rm",
    )) && index - ci == 1 {
        let r = complete_workspaces_for_prefix(workspaces, current);
        return r;
    }
    if str_equal(command, "merge") {
        return complete_merge_workspace_context(args, index, ci, current, workspaces);
    }
    None
}

/// Whether `--json` or `-j` stands between the subcommand and the word
/// being completed.
pub open spec fn has_json_flag_between(args: Seq<Seq<char>>, command_index: int, index: int) -> bool {
    exists|k: int| command_index < k < index && 0 <= k < args.len() && (#[trigger] args[k] == "--json"@ || args[k]
        == "-j"@)
}

/// Whether a JSON flag was given to the subcommand.
pub fn has_json_flag(args: &[String], command_index: usize, index: usize) -> (r: bool)
    ensures
        r == has_json_flag_between(views_of(args@), command_index as int, index as int),
{
    proof {
        reveal_strlit("--json");
        reveal_strlit("-j");
    }
    let mut k: usize = 0;
    while k < args.len()
        invariant
            k <= args@.len(),
            forall|j: int| 0 <= j < k && command_index < j < index ==> !(#[trigger] views_of(args@)[j] == "--json"@
                || views_of(args@)[j] == "-j"@),
        decreases args@.len() - k,
    {
        assert(views_of(args@)[k as int] == args@[k as int]@);
        if k > command_index && k < index && (str_equal(args[k].as_str(), "--json") || str_equal(
            args[k].as_str(),
            "-j",
        )) {
            return true;
        }
        k += 1;
    }
    false
}

/// The candidates shown for a subcommand: `list`, `ls` and `doctor` offer
/// `--compact` and `-c` only after a JSON flag.
pub open spec fn contextual_keep(bin_name: Seq<char>, args: Seq<Seq<char>>, index: int, value: Seq<char>) -> bool {
    match command_index_of(bin_name, args) {
        None => true,
        Some(ci) => if ci < args.len() && (args[ci] == "list"@ || args[ci] == "ls"@ || args[ci] == "doctor"@)
            && !has_json_flag_between(args, ci, index) {
            value != "--compact"@ && value != "-c"@
        } else {
            true
        },
    }
}

proof fn lemma_filter_keeps_all(s: Seq<Candidate>, pred: spec_fn(Candidate) -> bool)
    requires
        forall|k: int| 0 <= k < s.len() ==> pred(#[trigger] s[k]),
    ensures
        s.filter(pred) == s,
    decreases s.len(),
{
    if s.len() > 0 {
        let d = s.drop_last();
        assert forall|k: int| 0 <= k < d.len() implies pred(#[trigger] d[k]) by {
            assert(d[k] == s[k]);
        }
        lemma_filter_keeps_all(d, pred);
        d.lemma_filter_push(s.last(), pred);
        assert(d.push(s.last()) =~= s);
        assert(pred(s[s.len() - 1]));
    } else {
        assert(s.filter(pred) =~= s) by {
            reveal(Seq::filter);
        }
    }
}

/// Drop the candidates that do not fit the subcommand.
pub fn filter_contextual_completions(bin_name: &str, completions: Vec<Candidate>, args: &[String], index: usize) -> (r:
    Vec<Candidate>)
    ensures
        r@ == completions@.filter(|c: Candidate| contextual_keep(bin_name@, views_of(args@), index as int, c.value@)),
{
    let ghost keep = |c: Candidate| contextual_keep(bin_name@, views_of(args@), index as int, c.value@);
    proof {
        reveal_strlit("list");
        reveal_strlit("ls");
        reveal_strlit("doctor");
        reveal_strlit("--compact");
        reveal_strlit("-c");
    }
    let ci = match command_index(bin_name, args) {
        Some(ci) => ci,
        None => {
            assert(completions@.filter(keep) =~= completions@) by {
                lemma_filter_keeps_all(completions@, keep);
            }
            return completions;
        },
    };
    let restricted = if ci < args.len() {
        let command = args[ci].as_str();
        assert(views_of(args@)[ci as int] == command@);
        (str_equal(command, "list") || str_equal(command, "ls") || str_equal(command, "doctor")) && !has_json_flag(
            args,
            ci,
            index,
        )
    } else {
        false
    };
    if !restricted {
        proof {
            assert forall|k: int| 0 <= k < completions@.len() implies keep(completions@[k]) by {}
            lemma_filter_keeps_all(completions@, keep);
        }
        return completions;
    }
    let mut out: Vec<Candidate> = Vec::new();
    let mut i: usize = 0;
    assert(completions@.take(0) =~= Seq::<Candidate>::empty());
    while i < completions.len()
        invariant
            i <= completions@.len(),
            restricted,
            forall|c: Candidate| #[trigger] keep(c) == (c.value@ != "--compact"@ && c.value@ != "-c"@),
            out@ == completions@.take(i as int).filter(keep),
        decreases completions@.len() - i,
    {
        assert(completions@.take(i + 1) =~= completions@.take(i as int).push(completions@[i as int]));
        proof {
            completions@.take(i as int).lemma_filter_push(completions@[i as int], keep);
        }
        let v = completions[i].value.as_str();
        if !str_equal(v, "--compact") && !str_equal(v, "-c") {
            out.push(completions[i].clone());
        }
        i += 1;
    }
    assert(completions@.take(i as int) =~= completions@);
    out
}

/// Whether the word being completed is a lone `-`, which asks for long
/// options too.
pub fn include_long_flags(args: &[String], index: usize) -> (r: bool)
    ensures
        r == (index < args@.len() && args@[index as int]@ == "-"@),
{
    index < args.len() && str_equal(args[index].as_str(), "-")
}

/// The words with the one being completed replaced by `--`, to ask for
/// long options.
pub fn long_flag_args(args: &[String], index: usize) -> (r: Vec<String>)
    ensures
        views_of(r@) == if index < args@.len() {
            views_of(args@).update(index as int, "--"@)
        } else {
            views_of(args@)
        },
{
    let mut out: Vec<String> = Vec::new();
    let mut i: usize = 0;
    while i < args.len()
        invariant
            i <= args@.len(),
            views_of(out@) == (if index < i {
                views_of(args@).take(i as int).update(index as int, "--"@)
            } else {
                views_of(args@).take(i as int)
            }),
        decreases args@.len() - i,
    {
        let word = if i == index {
            "--".to_owned()
        } else {
            args[i].clone()
        };
        let ghost before = out@;
        out.push(word);
        assert(views_of(out@) =~= views_of(before).push(word@));
        proof {
            let t = views_of(args@).take(i + 1);
            assert(t =~= views_of(args@).take(i as int).push(args@[i as int]@));
            if index < i {
                assert(t.update(index as int, "--"@) =~= views_of(args@).take(i as int).update(index as int, "--"@).push(
                    args@[i as int]@,
                ));
            } else if index == i {
                assert(t.update(index as int, "--"@) =~= views_of(args@).take(i as int).push("--"@));
            }
        }
        i += 1;
    }
    assert(views_of(args@).take(i as int) =~= views_of(args@));
    out
}

/// The candidates after adding each long candidate whose value is not
/// offered yet, in order.
pub open spec fn merged_candidates(existing: Seq<Candidate>, long: Seq<Candidate>) -> Seq<Candidate>
    decreases long.len(),
{
    if long.len() == 0 {
        existing
    } else {
        let m = merged_candidates(existing, long.drop_last());
        if candidate_values(m).contains(long.last().value@) {
            m
        } else {
            m.push(long.last())
        }
    }
}

fn offers_value(cs: &Vec<Candidate>, value: &str) -> (r: bool)
    ensures
        r == candidate_values(cs@).contains(value@),
{
    let mut i: usize = 0;
    while i < cs.len()
        invariant
            i <= cs@.len(),
            forall|k: int| 0 <= k < i ==> (#[trigger] cs@[k]).value@ != value@,
        decreases cs@.len() - i,
    {
        if str_equal(cs[i].value.as_str(), value) {
            assert(candidate_values(cs@)[i as int] == value@);
            return true;
        }
        i += 1;
    }
    assert forall|k: int| 0 <= k < candidate_values(cs@).len() implies candidate_values(cs@)[k] != value@ by {
        assert(candidate_values(cs@)[k] == cs@[k].value@);
    }
    false
}

/// Add the long-option candidates that are not offered yet.
pub fn merge_flag_completions(completions: Vec<Candidate>, long: Vec<Candidate>) -> (r: Vec<Candidate>)
    ensures
        r@ == merged_candidates(completions@, long@),
{
    let mut out = completions;
    let ghost base = out@;
    let mut i: usize = 0;
    assert(long@.take(0) =~= Seq::<Candidate>::empty());
    while i < long.len()
        invariant
            i <= long@.len(),
            out@ == merged_candidates(base, long@.take(i as int)),
        decreases long@.len() - i,
    {
        assert(long@.take(i + 1).drop_last() =~= long@.take(i as int));
        assert(long@.take(i + 1).last() == long@[i as int]);
        if !offers_value(&out, long[i].value.as_str()) {
            out.push(long[i].clone());
        }
        i += 1;
    }
    assert(long@.take(i as int) =~= long@);
    out
}

/// What separates a candidate from its help for a shell: `:` for zsh, a
/// tab for fish and nu; other shells show no help.
pub open spec fn help_separator_of(shell: Seq<char>) -> Option<Seq<char>> {
    if shell == "zsh"@ {
        Some(":"@)
    } else if shell == "fish"@ || shell == "nu"@ {
        Some("\t"@)
    } else {
        None
    }
}

/// How a candidate is written: its value, with its help where the shell
/// shows help.
pub open spec fn candidate_text(shell: Seq<char>, c: Candidate) -> Seq<char> {
    match (help_separator_of(shell), c.help) {
        (Some(sep), Some(h)) => c.value@ + sep + h@,
        _ => c.value@,
    }
}

/// The text written for a completion request: the candidates joined by
/// the shell's separator.
pub open spec fn completions_text(shell: Seq<char>, separator: Seq<char>, cs: Seq<Candidate>) -> Seq<char> {
    join_parts(cs.map_values(|c: Candidate| candidate_text(shell, c)), separator)
}

/// Write the candidates for a shell: each value, with its help where the
/// shell shows help, separated by `separator` (`_CLAP_IFS`, else a
/// newline).
pub fn write_completions(shell_name: &str, separator: &str, completions: &[Candidate]) -> (r: String)
    ensures
        r@ == completions_text(shell_name@, separator@, completions@),
{
    proof {
        reveal_strlit("zsh");
        reveal_strlit("fish");
        reveal_strlit("nu");
    }
    let help_separator: Option<&str> = if str_equal(shell_name, "zsh") {
        Some(":")
    } else if str_equal(shell_name, "fish") || str_equal(shell_name, "nu") {
        Some("\t")
    } else {
        None
    };
    assert(match help_separator {
        Some(h) => help_separator_of(shell_name@) == Some(h@),
        None => help_separator_of(shell_name@) is None,
    });
    let ghost texts = completions@.map_values(|c: Candidate| candidate_text(shell_name@, c));
    let mut out = String::new();
    let mut i: usize = 0;
    assert(texts.take(0) =~= Seq::<Seq<char>>::empty());
    while i < completions.len()
        invariant
            i <= completions@.len(),
            texts == completions@.map_values(|c: Candidate| candidate_text(shell_name@, c)),
            match help_separator {
                Some(h) => help_separator_of(shell_name@) == Some(h@),
                None => help_separator_of(shell_name@) is None,
            },
            out@ == join_parts(texts.take(i as int), separator@),
        decreases completions@.len() - i,
    {
        let ghost before = out@;
        if i != 0 {
            out.append(separator);
        }
        let c = &completions[i];
        out.append(c.value.as_str());
        match (help_separator, &c.help) {
            (Some(sep), Some(help)) => {
                out.append(sep);
                out.append(help.as_str());
            },
            _ => {},
        }
        proof {
            assert(texts[i as int] == candidate_text(shell_name@, completions@[i as int]));
            assert(texts.take(i + 1).drop_last() =~= texts.take(i as int));
            assert(texts.take(i + 1).last() == texts[i as int]);
            if i == 0 {
                assert(texts.take(1) =~= seq![texts[0]]);
                assert(out@ =~= texts[0]);
            } else {
                assert(out@ =~= before + separator@ + texts[i as int]);
            }
        }
        i += 1;
    }
    assert(texts.take(i as int) =~= texts);
    out
}

} // verus!
