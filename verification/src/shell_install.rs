//! What installing the shell integration does to an rc file across runs:
//! after one install the file holds exactly one managed block, and a second
//! install of the same block leaves the file as it is.

use vstd::prelude::*;

use crate::shell::{
    block_ends, block_missing, block_present, block_starts, lemma_match_positions_bounds,
    match_positions, newline_if_unterminated, newline_terminated, shell_install_block_text,
    trim_leading_newlines, upsert_missing_text, upsert_present_text, MANAGED_BLOCK_END,
    MANAGED_BLOCK_START,
};
use crate::text::{contains_seq, occurs_at};
use crate::types::ShellKind;

verus! {

/// `p` is not empty and holds no newline.
pub open spec fn single_line(p: Seq<char>) -> bool {
    p.len() > 0 && forall|k: int| 0 <= k < p.len() ==> p[k] != '\n'
}

/// `p` occurs nowhere in `s` at or after `from`.
pub open spec fn absent_from(s: Seq<char>, p: Seq<char>, from: int) -> bool {
    forall|i: int| from <= i ==> !#[trigger] occurs_at(s, p, i)
}

/// Empty, or ending with a newline.
pub open spec fn line_end(s: Seq<char>) -> bool {
    s.len() == 0 || s.last() == '\n'
}

/// A managed block as the installer writes it: it ends with a newline, its
/// only start marker opens it and its only end marker closes its last line.
pub open spec fn well_formed_block(b: Seq<char>) -> bool {
    &&& b.len() > 0
    &&& b.last() == '\n'
    &&& block_starts(b) == seq![0int]
    &&& block_ends(b) == seq![b.len() - 1 - MANAGED_BLOCK_END@.len()]
}

/// The rc file text after installing `block`, for a file whose markers are
/// missing or form one block.
pub open spec fn upserted(existing: Seq<char>, block: Seq<char>) -> Seq<char> {
    if block_missing(existing) {
        upsert_missing_text(existing, block)
    } else {
        upsert_present_text(
            existing,
            block,
            block_starts(existing)[0],
            block_ends(existing)[0] + MANAGED_BLOCK_END@.len(),
        )
    }
}

/// The text of the one managed block in `s`: from its start marker to the
/// end of its end marker.
pub open spec fn located_block(s: Seq<char>) -> Seq<char> {
    s.subrange(block_starts(s)[0], block_ends(s)[0] + MANAGED_BLOCK_END@.len())
}

/// Positions moved right by `k`.
pub open spec fn shifted(s: Seq<int>, k: int) -> Seq<int> {
    s.map_values(|x: int| x + k)
}

/// Both markers are single lines of one length.
proof fn lemma_markers()
    ensures
        single_line(MANAGED_BLOCK_START@),
        single_line(MANAGED_BLOCK_END@),
        MANAGED_BLOCK_START@.len() == MANAGED_BLOCK_END@.len(),
{
    reveal_strlit("# >>> jj-navi shell init >>>");
    reveal_strlit("# <<< jj-navi shell init <<<");
}

/// A scan finds nothing exactly when there is nothing to find.
proof fn lemma_scan_empty(s: Seq<char>, p: Seq<char>, from: int)
    requires
        p.len() > 0,
        from >= 0,
    ensures
        match_positions(s, p, from).len() == 0 <==> absent_from(s, p, from),
    decreases s.len() - from,
{
    if from + p.len() > s.len() {
    } else if occurs_at(s, p, from) {
        assert(match_positions(s, p, from) == seq![from] + match_positions(s, p, from + p.len()));
    } else {
        lemma_scan_empty(s, p, from + 1);
        assert(match_positions(s, p, from) == match_positions(s, p, from + 1));
        if absent_from(s, p, from + 1) {
            assert forall|i: int| from <= i implies !#[trigger] occurs_at(s, p, i) by {
                if i > from {
                    assert(from + 1 <= i);
                }
            }
        }
    }
}

/// The first position a scan reports is the first occurrence, and the scan
/// goes on just past it.
proof fn lemma_scan_first(s: Seq<char>, p: Seq<char>, from: int)
    requires
        p.len() > 0,
        from >= 0,
        match_positions(s, p, from).len() > 0,
    ensures
        forall|i: int| from <= i < match_positions(s, p, from)[0] ==> !#[trigger] occurs_at(s, p, i),
        match_positions(s, p, from) == seq![match_positions(s, p, from)[0]] + match_positions(
            s,
            p,
            match_positions(s, p, from)[0] + p.len(),
        ),
    decreases s.len() - from,
{
    if from + p.len() > s.len() {
    } else if occurs_at(s, p, from) {
    } else {
        lemma_scan_first(s, p, from + 1);
        assert(match_positions(s, p, from) == match_positions(s, p, from + 1));
    }
}

/// A scan passes over positions where nothing occurs.
proof fn lemma_scan_skip(s: Seq<char>, p: Seq<char>, from: int, m: int)
    requires
        p.len() > 0,
        0 <= from <= m,
        forall|i: int| from <= i < m ==> !#[trigger] occurs_at(s, p, i),
    ensures
        match_positions(s, p, from) == match_positions(s, p, m),
    decreases m - from,
{
    if from < m && from + p.len() <= s.len() {
        assert(!occurs_at(s, p, from));
        lemma_scan_skip(s, p, from + 1, m);
    }
}

/// A single-line `p` in `a + b + c` occurs only inside `b`, when `a` is
/// empty or ends a line, `b` ends a line, and neither `a` nor `c` holds it.
proof fn lemma_occurs_in_middle(a: Seq<char>, b: Seq<char>, c: Seq<char>, p: Seq<char>, i: int)
    requires
        single_line(p),
        line_end(a),
        b.len() > 0,
        b.last() == '\n',
        absent_from(a, p, 0),
        absent_from(c, p, 0),
        occurs_at(a + b + c, p, i),
    ensures
        a.len() <= i,
        i + p.len() <= a.len() + b.len(),
        occurs_at(b, p, i - a.len()),
{
    let t = a + b + c;
    let n = a.len() as int;
    let m = b.len() as int;
    if i < n {
        if i + p.len() <= n {
            assert(t.subrange(i, i + p.len()) =~= a.subrange(i, i + p.len()));
            assert(occurs_at(a, p, i));
        } else {
            assert(t.subrange(i, i + p.len())[n - 1 - i] == t[n - 1]);
            assert(p[n - 1 - i] != '\n');
        }
    } else if i + p.len() > n + m {
        if i >= n + m {
            assert(t.subrange(i, i + p.len()) =~= c.subrange(i - n - m, i - n - m + p.len()));
            assert(occurs_at(c, p, i - n - m));
        } else {
            assert(t.subrange(i, i + p.len())[n + m - 1 - i] == t[n + m - 1]);
            assert(t[n + m - 1] == b[m - 1]);
            assert(p[n + m - 1 - i] != '\n');
        }
    } else {
        assert(t.subrange(i, i + p.len()) =~= b.subrange(i - n, i - n + p.len()));
    }
}

/// Scanning `a + b + c` from inside `b` finds what scanning `b` finds,
/// moved by the length of `a`.
proof fn lemma_scan_middle(a: Seq<char>, b: Seq<char>, c: Seq<char>, p: Seq<char>, j: int)
    requires
        single_line(p),
        line_end(a),
        b.len() > 0,
        b.last() == '\n',
        absent_from(a, p, 0),
        absent_from(c, p, 0),
        0 <= j,
    ensures
        match_positions(a + b + c, p, a.len() + j) == shifted(match_positions(b, p, j), a.len() as int),
    decreases b.len() - j,
{
    let t = a + b + c;
    let n = a.len() as int;
    if j + p.len() > b.len() {
        assert forall|i: int| n + j <= i implies !#[trigger] occurs_at(t, p, i) by {
            if occurs_at(t, p, i) {
                lemma_occurs_in_middle(a, b, c, p, i);
            }
        }
        lemma_scan_empty(t, p, n + j);
        assert(shifted(match_positions(b, p, j), n) =~= Seq::<int>::empty());
    } else if occurs_at(b, p, j) {
        assert(t.subrange(n + j, n + j + p.len()) =~= b.subrange(j, j + p.len()));
        assert(occurs_at(t, p, n + j));
        lemma_scan_middle(a, b, c, p, j + p.len());
        assert(match_positions(t, p, n + j) == seq![n + j] + match_positions(t, p, n + j + p.len()));
        assert(match_positions(b, p, j) == seq![j] + match_positions(b, p, j + p.len()));
        assert(shifted(match_positions(b, p, j), n) =~= seq![n + j] + shifted(
            match_positions(b, p, j + p.len()),
            n,
        ));
    } else {
        if occurs_at(t, p, n + j) {
            lemma_occurs_in_middle(a, b, c, p, n + j);
        }
        lemma_scan_middle(a, b, c, p, j + 1);
        assert(match_positions(t, p, n + j) == match_positions(t, p, n + j + 1));
        assert(match_positions(b, p, j) == match_positions(b, p, j + 1));
    }
}

/// Scanning `a + b + c` finds what scanning `b` finds, moved by the length
/// of `a`.
proof fn lemma_scan_between(a: Seq<char>, b: Seq<char>, c: Seq<char>, p: Seq<char>)
    requires
        single_line(p),
        line_end(a),
        b.len() > 0,
        b.last() == '\n',
        absent_from(a, p, 0),
        absent_from(c, p, 0),
    ensures
        match_positions(a + b + c, p, 0) == shifted(match_positions(b, p, 0), a.len() as int),
{
    let t = a + b + c;
    assert forall|i: int| 0 <= i < a.len() implies !#[trigger] occurs_at(t, p, i) by {
        if occurs_at(t, p, i) {
            lemma_occurs_in_middle(a, b, c, p, i);
        }
    }
    lemma_scan_skip(t, p, 0, a.len() as int);
    lemma_scan_middle(a, b, c, p, 0);
}

/// A well-formed block between marker-free text keeps its markers, moved by
/// the length of the text before it.
proof fn lemma_block_between(a: Seq<char>, b: Seq<char>, c: Seq<char>)
    requires
        line_end(a),
        well_formed_block(b),
        absent_from(a, MANAGED_BLOCK_START@, 0),
        absent_from(a, MANAGED_BLOCK_END@, 0),
        absent_from(c, MANAGED_BLOCK_START@, 0),
        absent_from(c, MANAGED_BLOCK_END@, 0),
    ensures
        block_starts(a + b + c) == seq![a.len() as int],
        block_ends(a + b + c) == seq![a.len() + b.len() - 1 - MANAGED_BLOCK_END@.len()],
        block_present(a + b + c),
{
    lemma_markers();
    let n = a.len() as int;
    lemma_scan_between(a, b, c, MANAGED_BLOCK_START@);
    lemma_scan_between(a, b, c, MANAGED_BLOCK_END@);
    assert(shifted(seq![0int], n) =~= seq![n]);
    assert(shifted(seq![b.len() - 1 - MANAGED_BLOCK_END@.len()], n) =~= seq![
        n + b.len() - 1 - MANAGED_BLOCK_END@.len(),
    ]);
    lemma_match_positions_bounds(b, MANAGED_BLOCK_END@, 0);
    assert(block_ends(b)[0] >= 0);
}

/// A newline at the end of `s` makes no new occurrence of a single line.
proof fn lemma_absent_push_newline(s: Seq<char>, p: Seq<char>)
    requires
        single_line(p),
        absent_from(s, p, 0),
    ensures
        absent_from(s.push('\n'), p, 0),
{
    let t = s.push('\n');
    assert forall|i: int| 0 <= i implies !#[trigger] occurs_at(t, p, i) by {
        if occurs_at(t, p, i) {
            if i + p.len() <= s.len() {
                assert(t.subrange(i, i + p.len()) =~= s.subrange(i, i + p.len()));
                assert(occurs_at(s, p, i));
            } else {
                assert(t.subrange(i, i + p.len())[s.len() - i] == t[s.len() as int]);
                assert(p[s.len() - i] != '\n');
            }
        }
    }
}

/// Every text made from `s` by ending its line holds what `s` holds.
proof fn lemma_absent_line_endings(s: Seq<char>, p: Seq<char>)
    requires
        single_line(p),
        absent_from(s, p, 0),
    ensures
        absent_from(newline_if_unterminated(s), p, 0),
        absent_from(newline_terminated(s), p, 0),
        line_end(newline_if_unterminated(s)),
        line_end(newline_terminated(s)),
{
    lemma_absent_push_newline(s, p);
}

/// The first `n` characters of `s` hold no occurrence that `s` does not
/// hold within them.
proof fn lemma_absent_take(s: Seq<char>, p: Seq<char>, n: int)
    requires
        0 <= n <= s.len(),
        forall|i: int| 0 <= i && i + p.len() <= n ==> !#[trigger] occurs_at(s, p, i),
    ensures
        absent_from(s.take(n), p, 0),
{
    assert forall|i: int| 0 <= i implies !#[trigger] occurs_at(s.take(n), p, i) by {
        if occurs_at(s.take(n), p, i) {
            assert(s.take(n).subrange(i, i + p.len()) =~= s.subrange(i, i + p.len()));
            assert(occurs_at(s, p, i));
        }
    }
}

/// What follows position `n` holds nothing that `s` lacks from `n` on.
proof fn lemma_absent_skip(s: Seq<char>, p: Seq<char>, n: int)
    requires
        0 <= n <= s.len(),
        absent_from(s, p, n),
    ensures
        absent_from(s.skip(n), p, 0),
{
    assert forall|j: int| 0 <= j implies !#[trigger] occurs_at(s.skip(n), p, j) by {
        if occurs_at(s.skip(n), p, j) {
            assert(s.skip(n).subrange(j, j + p.len()) =~= s.subrange(n + j, n + j + p.len()));
            assert(occurs_at(s, p, n + j));
        }
    }
}

/// Dropping leading newlines adds no occurrence, and leaves none in front.
proof fn lemma_trim_newlines(s: Seq<char>, p: Seq<char>)
    requires
        absent_from(s, p, 0),
    ensures
        absent_from(trim_leading_newlines(s), p, 0),
        trim_leading_newlines(s).len() > 0 ==> trim_leading_newlines(s)[0] != '\n',
    decreases s.len(),
{
    if s.len() > 0 && s[0] == '\n' {
        lemma_absent_skip(s, p, 1);
        assert(s.skip(1) =~= s.drop_first());
        lemma_trim_newlines(s.drop_first(), p);
    }
}

/// One newline in front of `c` is all that trimming removes, when `c` does
/// not start with one.
proof fn lemma_trim_one_newline(c: Seq<char>)
    requires
        c.len() > 0 ==> c[0] != '\n',
    ensures
        trim_leading_newlines(seq!['\n'] + c) == c,
{
    let s = seq!['\n'] + c;
    assert(s[0] == '\n');
    assert(s.drop_first() =~= c);
    assert(trim_leading_newlines(s) == trim_leading_newlines(s.drop_first()));
    assert(trim_leading_newlines(c) == c);
}

/// Installing into a file without markers puts the block at the end, and a
/// second install changes nothing.
proof fn lemma_install_into_missing(existing: Seq<char>, block: Seq<char>)
    requires
        block_missing(existing),
        well_formed_block(block),
    ensures
        block_present(upserted(existing, block)),
        located_block(upserted(existing, block)) == block.drop_last(),
        upserted(upserted(existing, block), block) == upserted(existing, block),
{
    lemma_markers();
    let start = MANAGED_BLOCK_START@;
    let end = MANAGED_BLOCK_END@;
    lemma_scan_empty(existing, start, 0);
    lemma_scan_empty(existing, end, 0);
    let a1 = newline_if_unterminated(existing);
    lemma_absent_line_endings(existing, start);
    lemma_absent_line_endings(existing, end);
    let a2 = if a1.len() > 0 && !(a1.len() >= 2 && a1[a1.len() - 1] == '\n' && a1[a1.len() - 2] == '\n') {
        a1.push('\n')
    } else {
        a1
    };
    lemma_absent_push_newline(a1, start);
    lemma_absent_push_newline(a1, end);
    assert(line_end(a2));
    let t = upserted(existing, block);
    assert(t == a2 + block);
    let empty = Seq::<char>::empty();
    assert(t =~= a2 + block + empty);
    lemma_block_between(a2, block, empty);

    let n = a2.len() as int;
    assert(!block_missing(t));
    assert(block_starts(t)[0] == n);
    assert(block_ends(t)[0] + end.len() == n + block.len() - 1);
    assert(t.take(n) =~= a2);
    assert(located_block(t) =~= block.drop_last());
    assert(t.skip(n + block.len() - 1) =~= seq!['\n'] + empty);
    lemma_trim_one_newline(empty);
    assert(upserted(t, block) =~= t);
}

/// Installing into a file with one block replaces it in place, and a second
/// install changes nothing.
proof fn lemma_install_into_present(existing: Seq<char>, block: Seq<char>)
    requires
        block_present(existing),
        well_formed_block(block),
    ensures
        block_present(upserted(existing, block)),
        located_block(upserted(existing, block)) == block.drop_last(),
        upserted(upserted(existing, block), block) == upserted(existing, block),
{
    lemma_markers();
    let start = MANAGED_BLOCK_START@;
    let end = MANAGED_BLOCK_END@;
    let s0 = block_starts(existing)[0];
    let e0 = block_ends(existing)[0];
    let stop = e0 + end.len();
    lemma_match_positions_bounds(existing, start, 0);
    lemma_match_positions_bounds(existing, end, 0);
    assert(occurs_at(existing, end, e0));
    lemma_scan_first(existing, start, 0);
    lemma_scan_first(existing, end, 0);
    lemma_scan_empty(existing, start, s0 + start.len());
    lemma_scan_empty(existing, end, stop);

    let p0 = existing.take(s0);
    lemma_absent_take(existing, start, s0);
    assert forall|i: int| 0 <= i && i + end.len() <= s0 implies !#[trigger] occurs_at(existing, end, i) by {
        assert(i < e0);
    }
    lemma_absent_take(existing, end, s0);
    let p = newline_if_unterminated(p0);
    lemma_absent_line_endings(p0, start);
    lemma_absent_line_endings(p0, end);

    let rest = existing.skip(stop);
    assert(absent_from(existing, start, stop));
    lemma_absent_skip(existing, start, stop);
    lemma_absent_skip(existing, end, stop);
    let sfx = trim_leading_newlines(rest);
    lemma_trim_newlines(rest, start);
    lemma_trim_newlines(rest, end);
    let c = if sfx.len() == 0 {
        Seq::<char>::empty()
    } else {
        newline_terminated(sfx)
    };
    lemma_absent_line_endings(sfx, start);
    lemma_absent_line_endings(sfx, end);
    assert(absent_from(c, start, 0));
    assert(absent_from(c, end, 0));
    assert(c.len() > 0 ==> c[0] != '\n');
    assert(line_end(c));

    let head = p + block;
    assert(newline_terminated(head) == head);
    let t = upserted(existing, block);
    assert(!block_missing(existing));
    if sfx.len() == 0 {
        assert(t =~= p + block + c);
    } else {
        assert((head + sfx).last() == sfx.last());
        assert(t =~= p + block + c);
    }
    lemma_block_between(p, block, c);

    let n = p.len() as int;
    assert(!block_missing(t));
    assert(block_starts(t)[0] == n);
    assert(block_ends(t)[0] + end.len() == n + block.len() - 1);
    assert(t.take(n) =~= p);
    assert(located_block(t) =~= block.drop_last());
    assert(t.skip(n + block.len() - 1) =~= seq!['\n'] + c);
    lemma_trim_one_newline(c);
    if c.len() == 0 {
        assert(upserted(t, block) =~= t);
    } else {
        assert((head + c).last() == '\n');
        assert(upserted(t, block) =~= t);
    }
}

/// Installing the shell integration twice gives the file of one install:
/// whether the rc file had no managed block or one, after an install it
/// holds exactly one, which is the installed block without its final
/// newline, and installing the same block again leaves the text unchanged.
pub proof fn lemma_install_idempotent(existing: Seq<char>, block: Seq<char>)
    requires
        block_missing(existing) || block_present(existing),
        well_formed_block(block),
    ensures
        block_present(upserted(existing, block)),
        located_block(upserted(existing, block)) == block.drop_last(),
        upserted(upserted(existing, block), block) == upserted(existing, block),
{
    if block_missing(existing) {
        lemma_install_into_missing(existing, block);
    } else {
        lemma_install_into_present(existing, block);
    }
}

/// No `#` in `s`.
pub open spec fn hash_free(s: Seq<char>) -> bool {
    forall|k: int| 0 <= k < s.len() ==> s[k] != '#'
}

proof fn lemma_hash_free_concat(x: Seq<char>, y: Seq<char>)
    requires
        hash_free(x),
        hash_free(y),
    ensures
        hash_free(x + y),
{
    assert forall|k: int| 0 <= k < (x + y).len() implies (x + y)[k] != '#' by {
        if k < x.len() {
            assert((x + y)[k] == x[k]);
        } else {
            assert((x + y)[k] == y[k - x.len()]);
        }
    }
}

/// Each marker starts with its only `#`, and the two differ.
proof fn lemma_marker_hashes()
    ensures
        MANAGED_BLOCK_START@[0] == '#',
        MANAGED_BLOCK_END@[0] == '#',
        hash_free(MANAGED_BLOCK_START@.drop_first()),
        hash_free(MANAGED_BLOCK_END@.drop_first()),
        MANAGED_BLOCK_START@ != MANAGED_BLOCK_END@,
{
    reveal_strlit("# >>> jj-navi shell init >>>");
    reveal_strlit("# <<< jj-navi shell init <<<");
    assert(MANAGED_BLOCK_START@[2] != MANAGED_BLOCK_END@[2]);
}

/// Installing the shell integration for a command whose name holds neither
/// marker into an rc file with no managed block or one leaves exactly one
/// block, which is the installed block without its final newline, and
/// installing it again changes nothing.
pub proof fn lemma_shell_install_idempotent(existing: Seq<char>, command_name: Seq<char>, shell: ShellKind)
    requires
        block_missing(existing) || block_present(existing),
        !contains_seq(command_name, MANAGED_BLOCK_START@),
        !contains_seq(command_name, MANAGED_BLOCK_END@),
    ensures
        block_present(upserted(existing, shell_install_block_text(command_name, shell))),
        located_block(upserted(existing, shell_install_block_text(command_name, shell)))
            == shell_install_block_text(command_name, shell).drop_last(),
        upserted(
            upserted(existing, shell_install_block_text(command_name, shell)),
            shell_install_block_text(command_name, shell),
        ) == upserted(existing, shell_install_block_text(command_name, shell)),
{
    lemma_install_block_well_formed(command_name, shell);
    lemma_install_idempotent(existing, shell_install_block_text(command_name, shell));
}

/// Neither marker holds a `c` or ends with a space.
proof fn lemma_marker_letters()
    ensures
        forall|k: int| 0 <= k < MANAGED_BLOCK_START@.len() ==> MANAGED_BLOCK_START@[k] != 'c',
        forall|k: int| 0 <= k < MANAGED_BLOCK_END@.len() ==> MANAGED_BLOCK_END@[k] != 'c',
        MANAGED_BLOCK_START@.last() != ' ',
        MANAGED_BLOCK_END@.last() != ' ',
{
    reveal_strlit("# >>> jj-navi shell init >>>");
    reveal_strlit("# <<< jj-navi shell init <<<");
}

/// A marker that the command name does not hold cannot occur at a position
/// inside the name, where the name is followed by a space and a `c`.
proof fn lemma_marker_outside_name(b: Seq<char>, m: Seq<char>, name: Seq<char>, from: int, i: int)
    requires
        m.len() > 0,
        forall|k: int| 0 <= k < m.len() ==> m[k] != 'c',
        m.last() != ' ',
        !contains_seq(name, m),
        0 <= from,
        from + name.len() + 1 < b.len(),
        b.subrange(from, from + name.len()) == name,
        b[from + name.len()] == ' ',
        b[from + name.len() + 1] == 'c',
        from <= i < from + name.len(),
    ensures
        !occurs_at(b, m, i),
{
    let stop = from + name.len();
    if occurs_at(b, m, i) {
        if i + m.len() <= stop {
            assert(name.subrange(i - from, i - from + m.len()) =~= b.subrange(i, i + m.len()));
            assert(occurs_at(name, m, i - from));
        } else {
            let d = stop - i;
            assert(b.subrange(i, i + m.len())[d] == b[stop]);
            if d == m.len() - 1 {
                assert(m.last() == ' ');
            } else {
                assert(b.subrange(i, i + m.len())[d + 1] == b[stop + 1]);
            }
        }
    }
}

/// The block the installer renders is well formed when the command name
/// holds neither marker.
pub proof fn lemma_install_block_well_formed(command_name: Seq<char>, shell: ShellKind)
    requires
        !contains_seq(command_name, MANAGED_BLOCK_START@),
        !contains_seq(command_name, MANAGED_BLOCK_END@),
    ensures
        well_formed_block(shell_install_block_text(command_name, shell)),
{
    lemma_markers();
    lemma_marker_hashes();
    lemma_marker_letters();
    reveal_strlit("\n");
    reveal_strlit("eval \"$(command ");
    reveal_strlit(" config shell init ");
    reveal_strlit(")\"");
    reveal_strlit("bash");
    reveal_strlit("zsh");
    let start = MANAGED_BLOCK_START@;
    let end = MANAGED_BLOCK_END@;
    let pre = "\n"@ + "eval \"$(command "@;
    let post = " config shell init "@ + shell.spec_name() + ")\""@ + "\n"@;
    assert(hash_free("\n"@));
    assert(hash_free("eval \"$(command "@));
    assert(hash_free(" config shell init "@));
    assert(hash_free(shell.spec_name()));
    assert(hash_free(")\""@));
    lemma_hash_free_concat("\n"@, "eval \"$(command "@);
    lemma_hash_free_concat(" config shell init "@, shell.spec_name());
    lemma_hash_free_concat(" config shell init "@ + shell.spec_name(), ")\""@);
    lemma_hash_free_concat(" config shell init "@ + shell.spec_name() + ")\""@, "\n"@);
    assert(post[0] == ' ');
    assert(post[1] == 'c');
    let mid = "\n"@ + "eval \"$(command "@ + command_name + " config shell init "@ + shell.spec_name() + ")\""@
        + "\n"@;
    assert(mid =~= pre + command_name + post);
    let b = shell_install_block_text(command_name, shell);
    assert(b =~= start + mid + end + "\n"@);
    let n1 = start.len() as int;
    let cs = n1 + pre.len();
    let ce = cs + command_name.len();
    let pe = ce + post.len();
    assert(b.len() == pe + end.len() + 1);
    assert(b.subrange(cs, ce) =~= command_name);
    assert(b[ce] == post[0]);
    assert(b[ce + 1] == post[1]);
    assert forall|i: int| 0 <= i < b.len() && b[i] == '#' && !(cs <= i < ce) implies i == 0 || i == pe by {
        if 0 < i < n1 {
            assert(b[i] == start[i]);
            assert(start[i] == start.drop_first()[i - 1]);
        } else if n1 <= i < cs {
            assert(b[i] == pre[i - n1]);
        } else if ce <= i < pe {
            assert(b[i] == post[i - ce]);
        } else if pe < i < pe + end.len() {
            assert(b[i] == end[i - pe]);
            assert(end[i - pe] == end.drop_first()[i - pe - 1]);
        } else if i == b.len() - 1 {
            assert(b[i] == '\n');
        }
    }
    assert(b.subrange(0, n1) =~= start);
    assert(b.subrange(pe, pe + end.len()) =~= end);
    assert forall|i: int| #[trigger] occurs_at(b, start, i) implies i == 0 || i == pe by {
        if cs <= i < ce {
            lemma_marker_outside_name(b, start, command_name, cs, i);
        }
        assert(b.subrange(i, i + start.len())[0] == b[i]);
    }
    assert forall|i: int| #[trigger] occurs_at(b, end, i) implies i == 0 || i == pe by {
        if cs <= i < ce {
            lemma_marker_outside_name(b, end, command_name, cs, i);
        }
        assert(b.subrange(i, i + end.len())[0] == b[i]);
    }
    assert(occurs_at(b, start, 0));
    assert(!occurs_at(b, start, pe));
    assert(occurs_at(b, end, pe));
    assert(!occurs_at(b, end, 0));

    assert(absent_from(b, start, n1));
    lemma_scan_empty(b, start, n1);
    assert(match_positions(b, start, 0) == seq![0int] + match_positions(b, start, n1));
    assert(block_starts(b) =~= seq![0int]);

    lemma_scan_skip(b, end, 0, pe);
    assert(absent_from(b, end, pe + end.len()));
    lemma_scan_empty(b, end, pe + end.len());
    assert(match_positions(b, end, pe) == seq![pe] + match_positions(b, end, pe + end.len()));
    assert(block_ends(b) =~= seq![pe]);
}

} // verus!
