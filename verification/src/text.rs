//! Character-level string helpers with exact specifications.

use vstd::prelude::*;
use vstd::string::*;

verus! {

/// Appends one character to a string.
#[verifier::external_body]
pub(crate) fn push_char(s: &mut String, c: char)
    ensures
        final(s)@ == old(s)@.push(c),
{
    s.push(c);
}

/// Whether `c` has the Unicode `White_Space` property, which
/// `char::is_whitespace` tests: tab to carriage return, space, next line,
/// no-break space, ogham space mark, en quad to hair space, the line and
/// paragraph separators, narrow no-break space, medium mathematical space
/// and ideographic space.
pub closed spec fn char_is_whitespace(c: char) -> bool {
    let u = c as u32;
    (0x09 <= u <= 0x0d) || u == 0x20 || u == 0x85 || u == 0xa0 || u == 0x1680 || (0x2000 <= u
        <= 0x200a) || u == 0x2028 || u == 0x2029 || u == 0x202f || u == 0x205f || u == 0x3000
}

/// Newline and space are whitespace; `#` is not.
pub proof fn lemma_whitespace_chars()
    ensures
        char_is_whitespace('\n'),
        char_is_whitespace(' '),
        !char_is_whitespace('#'),
{
}

/// Whether `c` is whitespace, as `char::is_whitespace` reports it.
pub fn is_whitespace(c: char) -> (r: bool)
    ensures
        r == char_is_whitespace(c),
{
    let u = c as u32;
    (0x09 <= u && u <= 0x0d) || u == 0x20 || u == 0x85 || u == 0xa0 || u == 0x1680 || (0x2000 <= u
        && u <= 0x200a) || u == 0x2028 || u == 0x2029 || u == 0x202f || u == 0x205f || u == 0x3000
}

/// `s` without its leading whitespace.
pub open spec fn trim_start_ws(s: Seq<char>) -> Seq<char>
    decreases s.len(),
{
    if s.len() > 0 && char_is_whitespace(s[0]) {
        trim_start_ws(s.drop_first())
    } else {
        s
    }
}

/// `s` without its trailing whitespace.
pub open spec fn trim_end_ws(s: Seq<char>) -> Seq<char>
    decreases s.len(),
{
    if s.len() > 0 && char_is_whitespace(s.last()) {
        trim_end_ws(s.drop_last())
    } else {
        s
    }
}

/// `s` without leading and trailing whitespace, as `str::trim` gives it.
pub open spec fn trim_ws(s: Seq<char>) -> Seq<char> {
    trim_end_ws(trim_start_ws(s))
}

/// The index of the first character of `v` that is not whitespace.
fn first_non_ws(v: &Vec<char>) -> (r: usize)
    ensures
        r <= v.len(),
        trim_start_ws(v@) == v@.subrange(r as int, v.len() as int),
{
    let mut i: usize = 0;
    assert(v@.subrange(0, v.len() as int) =~= v@);
    while i < v.len() && is_whitespace(v[i])
        invariant
            i <= v.len(),
            trim_start_ws(v@) == trim_start_ws(v@.subrange(i as int, v.len() as int)),
        decreases v.len() - i,
    {
        assert(v@.subrange(i as int, v.len() as int).drop_first() =~= v@.subrange(i + 1, v.len() as int));
        i += 1;
    }
    i
}

/// The length of the prefix of `v[..to]` that ends in a non-whitespace
/// character.
fn last_non_ws_end(v: &Vec<char>, to: usize) -> (r: usize)
    requires
        to <= v.len(),
    ensures
        r <= to,
        trim_end_ws(v@.subrange(0, to as int)) == v@.subrange(0, r as int),
{
    let mut j: usize = to;
    while j > 0 && is_whitespace(v[j - 1])
        invariant
            j <= to <= v.len(),
            trim_end_ws(v@.subrange(0, to as int)) == trim_end_ws(v@.subrange(0, j as int)),
        decreases j,
    {
        assert(v@.subrange(0, j as int).drop_last() =~= v@.subrange(0, j - 1));
        j -= 1;
    }
    j
}

/// `s` with whitespace removed from both ends.
pub fn trim(s: &str) -> (r: String)
    ensures
        r@ == trim_ws(s@),
{
    let v = chars_of(s);
    let start = first_non_ws(&v);
    let rest = sub_chars(&v, start, v.len());
    let end = last_non_ws_end(&rest, rest.len());
    assert(rest@.subrange(0, rest.len() as int) =~= rest@);
    let mut out = String::new();
    append_range(&mut out, &rest, 0, end);
    out
}

/// `s` with trailing whitespace removed.
pub fn trim_end(s: &str) -> (r: String)
    ensures
        r@ == trim_end_ws(s@),
{
    let v = chars_of(s);
    let end = last_non_ws_end(&v, v.len());
    assert(v@.subrange(0, v.len() as int) =~= v@);
    let mut out = String::new();
    append_range(&mut out, &v, 0, end);
    out
}

/// `s` with leading whitespace removed.
pub fn trim_start(s: &str) -> (r: String)
    ensures
        r@ == trim_start_ws(s@),
{
    let v = chars_of(s);
    let start = first_non_ws(&v);
    let mut out = String::new();
    append_range(&mut out, &v, start, v.len());
    out
}

/// Whether `s` holds only whitespace (or nothing).
pub open spec fn is_blank(s: Seq<char>) -> bool {
    forall|i: int| 0 <= i < s.len() ==> char_is_whitespace(#[trigger] s[i])
}

/// Trimming leaves nothing exactly when the text is blank.
pub proof fn lemma_trim_empty(s: Seq<char>)
    ensures
        (trim_ws(s).len() == 0) == is_blank(s),
    decreases s.len(),
{
    if s.len() > 0 && char_is_whitespace(s[0]) {
        lemma_trim_empty(s.drop_first());
        assert forall|i: int| 0 <= i < s.len() && is_blank(s.drop_first()) implies char_is_whitespace(
            #[trigger] s[i],
        ) by {
            if i > 0 {
                assert(s[i] == s.drop_first()[i - 1]);
            }
        }
    } else {
        lemma_trim_end_empty(s);
    }
}

/// Trimming the end of a text that does not start with whitespace leaves
/// nothing only when the text is empty.
proof fn lemma_trim_end_empty(s: Seq<char>)
    requires
        !(s.len() > 0 && char_is_whitespace(s[0])),
    ensures
        (trim_end_ws(s).len() == 0) == (s.len() == 0),
    decreases s.len(),
{
    if s.len() > 0 && char_is_whitespace(s.last()) {
        if s.len() > 1 {
            lemma_trim_end_empty(s.drop_last());
        }
    }
}

/// Whether `p` occurs in `s` at position `i`.
pub open spec fn occurs_at(s: Seq<char>, p: Seq<char>, i: int) -> bool {
    0 <= i && i + p.len() <= s.len() && s.subrange(i, i + p.len()) == p
}

/// Whether `p` occurs anywhere in `s`.
pub open spec fn contains_seq(s: Seq<char>, p: Seq<char>) -> bool {
    exists|i: int| occurs_at(s, p, i)
}

/// The first position at or after `from` where `p` occurs in `s`.
pub open spec fn first_occurrence(s: Seq<char>, p: Seq<char>, from: int) -> Option<int>
    decreases s.len() + 1 - from,
{
    if from < 0 || from + p.len() > s.len() {
        None
    } else if occurs_at(s, p, from) {
        Some(from)
    } else {
        first_occurrence(s, p, from + 1)
    }
}

/// `first_occurrence` finds the least position, and only misses when there
/// is none.
pub proof fn lemma_first_occurrence(s: Seq<char>, p: Seq<char>, from: int)
    requires
        from >= 0,
    ensures
        match first_occurrence(s, p, from) {
            Some(k) => from <= k && occurs_at(s, p, k) && forall|j: int|
                from <= j < k ==> !occurs_at(s, p, j),
            None => forall|j: int| from <= j ==> !occurs_at(s, p, j),
        },
    decreases s.len() + 1 - from,
{
    if from + p.len() > s.len() {
    } else if occurs_at(s, p, from) {
    } else {
        lemma_first_occurrence(s, p, from + 1);
    }
}

/// Whether `p` occurs in `v` at position `i`.
pub(crate) fn matches_at(v: &Vec<char>, p: &Vec<char>, i: usize) -> (r: bool)
    requires
        i + p.len() <= v.len(),
    ensures
        r == occurs_at(v@, p@, i as int),
{
    let mut j: usize = 0;
    while j < p.len()
        invariant
            i + p.len() <= v.len(),
            j <= p.len(),
            forall|k: int| 0 <= k < j ==> v@[i + k] == p@[k],
        decreases p.len() - j,
    {
        if v[i + j] != p[j] {
            assert(v@.subrange(i as int, i + p.len())[j as int] != p@[j as int]);
            return false;
        }
        j += 1;
    }
    assert(v@.subrange(i as int, i + p.len()) =~= p@);
    true
}

/// The first position at or after `from` where `p` occurs in `v`.
pub fn find_seq_from(v: &Vec<char>, p: &Vec<char>, from: usize) -> (r: Option<usize>)
    ensures
        r == match first_occurrence(v@, p@, from as int) {
            Some(k) => Some(k as usize),
            None => None::<usize>,
        },
{
    if p.len() > v.len() || from > v.len() - p.len() {
        return None;
    }
    let mut i = from;
    loop
        invariant
            p.len() <= v.len(),
            from <= i <= v.len() - p.len(),
            first_occurrence(v@, p@, from as int) == first_occurrence(v@, p@, i as int),
        decreases v.len() - p.len() - i,
    {
        if matches_at(v, p, i) {
            return Some(i);
        }
        if i == v.len() - p.len() {
            assert(first_occurrence(v@, p@, i + 1) is None);
            return None;
        }
        i += 1;
    }
}

/// The first position where `p` occurs in `s`, counted in characters.
pub fn find_str(s: &str, p: &str) -> (r: Option<usize>)
    ensures
        r == match first_occurrence(s@, p@, 0) {
            Some(k) => Some(k as usize),
            None => None::<usize>,
        },
{
    let v = chars_of(s);
    let pv = chars_of(p);
    find_seq_from(&v, &pv, 0)
}

/// Whether `p` occurs in `s`.
pub fn contains_str(s: &str, p: &str) -> (r: bool)
    ensures
        r == contains_seq(s@, p@),
{
    let found = find_str(s, p);
    proof {
        lemma_first_occurrence(s@, p@, 0);
    }
    found.is_some()
}

/// Collects the characters of `s` in order.
pub fn chars_of(s: &str) -> (v: Vec<char>)
    ensures
        v@ == s@,
{
    let mut v: Vec<char> = Vec::new();
    let n = s.unicode_len();
    let mut i: usize = 0;
    while i < n
        invariant
            n == s@.len(),
            i <= n,
            v@ == s@.subrange(0, i as int),
        decreases n - i,
    {
        v.push(s.get_char(i));
        i += 1;
    }
    v
}

/// Builds a string from a sequence of characters.
pub fn string_of(v: &Vec<char>) -> (s: String)
    ensures
        s@ == v@,
{
    let mut s = String::new();
    let mut i: usize = 0;
    while i < v.len()
        invariant
            i <= v.len(),
            s@ == v@.subrange(0, i as int),
        decreases v.len() - i,
    {
        push_char(&mut s, v[i]);
        i += 1;
    }
    s
}


/// The index of the first occurrence of `c` in `s`, if any.
pub open spec fn index_of_char(s: Seq<char>, c: char) -> Option<int>
    decreases s.len(),
{
    if s.len() == 0 {
        None
    } else if s[0] == c {
        Some(0)
    } else {
        match index_of_char(s.drop_first(), c) {
            Some(k) => Some(k + 1),
            None => None,
        }
    }
}

/// Facts about `index_of_char`.
pub proof fn lemma_index_of_char(s: Seq<char>, c: char)
    ensures
        match index_of_char(s, c) {
            Some(k) => 0 <= k < s.len() && s[k] == c && !s.take(k).contains(c),
            None => !s.contains(c),
        },
    decreases s.len(),
{
    if s.len() > 0 {
        lemma_index_of_char(s.drop_first(), c);
        if s[0] != c {
            match index_of_char(s.drop_first(), c) {
                Some(k) => {
                    assert(s.take(k + 1) =~= seq![s[0]] + s.drop_first().take(k));
                    assert forall|i: int| 0 <= i < k + 1 implies #[trigger] s.take(k + 1)[i] != c by {
                        if i > 0 {
                            assert(s.take(k + 1)[i] == s.drop_first().take(k)[i - 1]);
                        }
                    }
                },
                None => {
                    assert forall|i: int| 0 <= i < s.len() implies #[trigger] s[i] != c by {
                        if i > 0 {
                            assert(s[i] == s.drop_first()[i - 1]);
                        }
                    }
                },
            }
        } else {
            assert(s.take(0) =~= Seq::<char>::empty());
        }
    }
}

/// `index_of_char` finds the first occurrence.
pub proof fn lemma_index_of_char_first(s: Seq<char>, c: char, j: int)
    requires
        0 <= j < s.len(),
        s[j] == c,
        forall|i: int| 0 <= i < j ==> s[i] != c,
    ensures
        index_of_char(s, c) == Some(j),
    decreases j,
{
    if j > 0 {
        assert forall|i: int| 0 <= i < j - 1 implies s.drop_first()[i] != c by {
            assert(s.drop_first()[i] == s[i + 1]);
        }
        lemma_index_of_char_first(s.drop_first(), c, j - 1);
    }
}

/// `index_of_char` is `None` when the character is absent.
pub proof fn lemma_index_of_char_none(s: Seq<char>, c: char)
    requires
        forall|i: int| 0 <= i < s.len() ==> s[i] != c,
    ensures
        index_of_char(s, c) == None::<int>,
    decreases s.len(),
{
    if s.len() > 0 {
        assert forall|i: int| 0 <= i < s.len() - 1 implies s.drop_first()[i] != c by {
            assert(s.drop_first()[i] == s[i + 1]);
        }
        lemma_index_of_char_none(s.drop_first(), c);
    }
}

/// The characters `v[from..to]`.
pub fn sub_chars(v: &Vec<char>, from: usize, to: usize) -> (r: Vec<char>)
    requires
        from <= to <= v.len(),
    ensures
        r@ == v@.subrange(from as int, to as int),
{
    let mut r: Vec<char> = Vec::new();
    let mut i = from;
    while i < to
        invariant
            from <= i <= to <= v.len(),
            r@ == v@.subrange(from as int, i as int),
        decreases to - i,
    {
        r.push(v[i]);
        i += 1;
    }
    r
}

/// Finds the first position of `c` in `v` at or after `from`.
pub fn find_char_from(v: &Vec<char>, c: char, from: usize) -> (r: Option<usize>)
    requires
        from <= v.len(),
    ensures
        match r {
            Some(k) => from <= k < v.len() && v@[k as int] == c && forall|i: int|
                from <= i < k ==> v@[i] != c,
            None => forall|i: int| from <= i < v.len() ==> v@[i] != c,
        },
{
    let mut i = from;
    while i < v.len()
        invariant
            from <= i <= v.len(),
            forall|j: int| from <= j < i ==> v@[j] != c,
        decreases v.len() - i,
    {
        if v[i] == c {
            return Some(i);
        }
        i += 1;
    }
    None
}

/// Whether `v` holds the character `c`.
pub fn contains_char(v: &Vec<char>, c: char) -> (r: bool)
    ensures
        r == v@.contains(c),
{
    match find_char_from(v, c, 0) {
        Some(k) => {
            assert(v@[k as int] == c);
            true
        },
        None => false,
    }
}

/// Whether two character sequences are equal.
pub fn chars_equal(a: &Vec<char>, b: &Vec<char>) -> (r: bool)
    ensures
        r == (a@ == b@),
{
    if a.len() != b.len() {
        return false;
    }
    let mut i: usize = 0;
    while i < a.len()
        invariant
            a.len() == b.len(),
            i <= a.len(),
            forall|j: int| 0 <= j < i ==> a@[j] == b@[j],
        decreases a.len() - i,
    {
        if a[i] != b[i] {
            return false;
        }
        i += 1;
    }
    assert(a@ =~= b@);
    true
}

/// Whether the characters of `a` equal those of the literal-like `b`.
pub fn chars_equal_str(a: &Vec<char>, b: &str) -> (r: bool)
    ensures
        r == (a@ == b@),
{
    let bv = chars_of(b);
    chars_equal(a, &bv)
}

/// Whether two strings hold the same characters.
pub fn str_equal(a: &str, b: &str) -> (r: bool)
    ensures
        r == (a@ == b@),
{
    let av = chars_of(a);
    let bv = chars_of(b);
    chars_equal(&av, &bv)
}

/// Appends the characters `v[from..to]` to `s`.
pub fn append_range(s: &mut String, v: &Vec<char>, from: usize, to: usize)
    requires
        from <= to <= v.len(),
    ensures
        final(s)@ == old(s)@ + v@.subrange(from as int, to as int),
{
    let mut i = from;
    while i < to
        invariant
            from <= i <= to <= v.len(),
            s@ == old(s)@ + v@.subrange(from as int, i as int),
        decreases to - i,
    {
        push_char(s, v[i]);
        i += 1;
        assert(v@.subrange(from as int, i as int) =~= v@.subrange(from as int, i - 1) + seq![v@[i - 1]]);
    }
}

/// Appends all characters of `v` to `s`.
pub fn append_chars(s: &mut String, v: &Vec<char>)
    ensures
        final(s)@ == old(s)@ + v@,
{
    append_range(s, v, 0, v.len());
    assert(v@.subrange(0, v.len() as int) =~= v@);
}


/// The decimal digit character for `d` in `0..10`.
pub open spec fn digit_char(d: int) -> char {
    if d == 0 {
        '0'
    } else if d == 1 {
        '1'
    } else if d == 2 {
        '2'
    } else if d == 3 {
        '3'
    } else if d == 4 {
        '4'
    } else if d == 5 {
        '5'
    } else if d == 6 {
        '6'
    } else if d == 7 {
        '7'
    } else if d == 8 {
        '8'
    } else {
        '9'
    }
}

/// The decimal representation of `n`, without leading zeros.
pub open spec fn decimal(n: nat) -> Seq<char>
    decreases n,
{
    if n < 10 {
        seq![digit_char(n as int)]
    } else {
        decimal(n / 10).push(digit_char((n % 10) as int))
    }
}

/// The character for decimal digit `d`.
fn digit(d: u64) -> (r: char)
    requires
        d < 10,
    ensures
        r == digit_char(d as int),
{
    match d {
        0 => '0',
        1 => '1',
        2 => '2',
        3 => '3',
        4 => '4',
        5 => '5',
        6 => '6',
        7 => '7',
        8 => '8',
        _ => '9',
    }
}

/// Append the decimal representation of `n`.
pub fn push_decimal(out: &mut String, n: u64)
    ensures
        final(out)@ == old(out)@ + decimal(n as nat),
    decreases n,
{
    if n >= 10 {
        push_decimal(out, n / 10);
    }
    push_char(out, digit(n % 10));
}

/// The decimal representation of `n`.
pub fn decimal_string(n: u64) -> (r: String)
    ensures
        r@ == decimal(n as nat),
{
    let mut out = String::new();
    push_decimal(&mut out, n);
    out
}

/// `parts` joined by `sep`.
pub open spec fn join_parts(parts: Seq<Seq<char>>, sep: Seq<char>) -> Seq<char>
    decreases parts.len(),
{
    if parts.len() == 0 {
        Seq::empty()
    } else if parts.len() == 1 {
        parts[0]
    } else {
        join_parts(parts.drop_last(), sep) + sep + parts.last()
    }
}

/// The characters of each string.
pub open spec fn views_of(parts: Seq<String>) -> Seq<Seq<char>> {
    parts.map_values(|s: String| s@)
}

/// Join strings with a separator.
pub fn join_strings(parts: &Vec<String>, sep: &str) -> (r: String)
    ensures
        r@ == join_parts(views_of(parts@), sep@),
{
    let mut out = String::new();
    let mut i: usize = 0;
    while i < parts.len()
        invariant
            i <= parts.len(),
            out@ == join_parts(views_of(parts@).take(i as int), sep@),
        decreases parts.len() - i,
    {
        assert(views_of(parts@).take(i + 1).drop_last() =~= views_of(parts@).take(i as int));
        if i > 0 {
            out.append(sep);
        }
        out.append(parts[i].as_str());
        i += 1;
    }
    assert(views_of(parts@).take(i as int) =~= views_of(parts@));
    out
}

/// `n` spaces.
pub open spec fn spaces(n: nat) -> Seq<char> {
    Seq::new(n, |i: int| ' ')
}

/// Append `n` spaces.
pub fn push_spaces(out: &mut String, n: usize)
    ensures
        final(out)@ == old(out)@ + spaces(n as nat),
{
    let mut i: usize = 0;
    while i < n
        invariant
            i <= n,
            out@ == old(out)@ + spaces(i as nat),
        decreases n - i,
    {
        push_char(out, ' ');
        i += 1;
        assert(spaces(i as nat) =~= spaces((i - 1) as nat).push(' '));
    }
}


/// `s` cut at every `'\n'`; the pieces between the newlines.
pub open spec fn split_on_newline(s: Seq<char>) -> Seq<Seq<char>>
    decreases s.len(),
{
    match index_of_char(s, '\n') {
        Some(k) => {
            proof {
                lemma_index_of_char(s, '\n');
            }
            seq![s.take(k)] + split_on_newline(s.skip(k + 1))
        },
        None => seq![s],
    }
}

/// `line` without one trailing carriage return.
pub open spec fn strip_cr(line: Seq<char>) -> Seq<char> {
    if line.len() > 0 && line.last() == '\r' {
        line.drop_last()
    } else {
        line
    }
}

/// The lines of `s` as `str::lines` yields them: split at `\n` or `\r\n`,
/// without a last empty line after a final line ending.
pub open spec fn lines_of(s: Seq<char>) -> Seq<Seq<char>> {
    let parts = split_on_newline(s);
    let last = parts.last();
    parts.drop_last().map_values(|l: Seq<char>| strip_cr(l)) + if last.len() > 0 {
        seq![last]
    } else {
        Seq::empty()
    }
}

/// `split_on_newline` never yields an empty list.
pub proof fn lemma_split_nonempty(s: Seq<char>)
    ensures
        split_on_newline(s).len() >= 1,
    decreases s.len(),
{
    lemma_index_of_char(s, '\n');
    if let Some(k) = index_of_char(s, '\n') {
        lemma_split_nonempty(s.skip(k + 1));
    }
}

/// Lines of a text whose first newline is at `k`.
pub proof fn lemma_lines_step(s: Seq<char>, k: int)
    requires
        index_of_char(s, '\n') == Some(k),
    ensures
        lines_of(s) == seq![strip_cr(s.take(k))] + lines_of(s.skip(k + 1)),
{
    lemma_index_of_char(s, '\n');
    lemma_split_nonempty(s.skip(k + 1));
    let rest = split_on_newline(s.skip(k + 1));
    assert(split_on_newline(s) == seq![s.take(k)] + rest);
    assert((seq![s.take(k)] + rest).drop_last() =~= seq![s.take(k)] + rest.drop_last());
    assert((seq![s.take(k)] + rest).last() == rest.last());
    assert((seq![s.take(k)] + rest.drop_last()).map_values(|l: Seq<char>| strip_cr(l)) =~= seq![
        strip_cr(s.take(k)),
    ] + rest.drop_last().map_values(|l: Seq<char>| strip_cr(l)));
    assert(lines_of(s) =~= seq![strip_cr(s.take(k))] + lines_of(s.skip(k + 1)));
}

/// Lines of a text without a newline.
pub proof fn lemma_lines_last(s: Seq<char>)
    requires
        index_of_char(s, '\n') == None::<int>,
    ensures
        lines_of(s) == if s.len() > 0 {
            seq![s]
        } else {
            Seq::<Seq<char>>::empty()
        },
{
    assert(split_on_newline(s) == seq![s]);
    assert(seq![s].drop_last() =~= Seq::<Seq<char>>::empty());
    assert(lines_of(s) =~= if s.len() > 0 {
        seq![s]
    } else {
        Seq::<Seq<char>>::empty()
    });
}

/// The lines of `s`, as `str::lines` yields them.
pub fn lines(s: &str) -> (r: Vec<Vec<char>>)
    ensures
        r@.map_values(|l: Vec<char>| l@) == lines_of(s@),
{
    let v = chars_of(s);
    let n = v.len();
    let mut r: Vec<Vec<char>> = Vec::new();
    let mut i: usize = 0;
    assert(v@.skip(0) =~= v@);
    loop
        invariant
            i <= n,
            n == v.len(),
            v@ == s@,
            r@.map_values(|l: Vec<char>| l@) + lines_of(v@.skip(i as int)) == lines_of(s@),
        decreases n - i,
    {
        let ghost before = r@.map_values(|l: Vec<char>| l@);
        match find_char_from(&v, '\n', i) {
            Some(k) => {
                proof {
                    let t = v@.skip(i as int);
                    assert forall|j: int| 0 <= j < k - i implies t[j] != '\n' by {
                        assert(t[j] == v@[j + i]);
                    }
                    lemma_index_of_char_first(t, '\n', k - i);
                    lemma_lines_step(t, k - i);
                    assert(t.take(k - i) =~= v@.subrange(i as int, k as int));
                    assert(t.skip(k - i + 1) =~= v@.skip(k + 1));
                }
                let mut line = sub_chars(&v, i, k);
                if line.len() > 0 && line[line.len() - 1] == '\r' {
                    line.pop();
                    assert(line@ =~= strip_cr(v@.subrange(i as int, k as int)));
                }
                r.push(line);
                assert(r@.map_values(|l: Vec<char>| l@) =~= before.push(
                    strip_cr(v@.subrange(i as int, k as int)),
                ));
                assert(r@.map_values(|l: Vec<char>| l@) + lines_of(v@.skip(k + 1)) =~= before
                    + lines_of(v@.skip(i as int)));
                i = k + 1;
            },
            None => {
                proof {
                    let t = v@.skip(i as int);
                    assert forall|j: int| 0 <= j < t.len() implies t[j] != '\n' by {
                        assert(t[j] == v@[j + i]);
                    }
                    lemma_index_of_char_none(t, '\n');
                    lemma_lines_last(t);
                    assert(t =~= v@.subrange(i as int, n as int));
                }
                if i < n {
                    let line = sub_chars(&v, i, n);
                    r.push(line);
                    assert(r@.map_values(|l: Vec<char>| l@) =~= before + lines_of(
                        v@.skip(i as int),
                    ));
                } else {
                    assert(r@.map_values(|l: Vec<char>| l@) =~= before + lines_of(
                        v@.skip(i as int),
                    ));
                }
                return r;
            },
        }
    }
}

} // verus!

verus! {

/// The fields of `s` split at `sep`, at most `n` of them, the last holding
/// the rest: what `str::splitn` yields.
pub open spec fn split_fields(s: Seq<char>, sep: char, n: nat) -> Seq<Seq<char>>
    decreases n,
{
    if n == 0 {
        Seq::empty()
    } else if n == 1 {
        seq![s]
    } else {
        match index_of_char(s, sep) {
            Some(k) => seq![s.take(k)] + split_fields(s.skip(k + 1), sep, (n - 1) as nat),
            None => seq![s],
        }
    }
}

/// `split_fields` yields between one and `n` fields.
pub proof fn lemma_split_fields_len(s: Seq<char>, sep: char, n: nat)
    ensures
        split_fields(s, sep, n).len() <= n,
        n >= 1 ==> split_fields(s, sep, n).len() >= 1,
    decreases n,
{
    if n > 1 {
        if let Some(k) = index_of_char(s, sep) {
            lemma_split_fields_len(s.skip(k + 1), sep, (n - 1) as nat);
        }
    }
}

/// The first position of `c` in `v` at or after `from`, as `index_of_char`
/// sees the rest of `v`.
proof fn lemma_find_in_rest(v: Seq<char>, c: char, from: int, found: Option<usize>)
    requires
        0 <= from <= v.len(),
        match found {
            Some(k) => from <= k < v.len() && v[k as int] == c && forall|i: int| from <= i < k ==> v[i] != c,
            None => forall|i: int| from <= i < v.len() ==> v[i] != c,
        },
    ensures
        index_of_char(v.skip(from), c) == match found {
            Some(k) => Some(k - from),
            None => None::<int>,
        },
{
    let t = v.skip(from);
    match found {
        Some(k) => {
            assert forall|i: int| 0 <= i < k - from implies t[i] != c by {
                assert(t[i] == v[i + from]);
            }
            lemma_index_of_char_first(t, c, k - from);
        },
        None => {
            assert forall|i: int| 0 <= i < t.len() implies t[i] != c by {
                assert(t[i] == v[i + from]);
            }
            lemma_index_of_char_none(t, c);
        },
    }
}

/// The fields of `s` split at `sep`, at most `n` of them.
pub fn splitn_chars(s: &str, sep: char, n: usize) -> (r: Vec<String>)
    ensures
        views_of(r@) == split_fields(s@, sep, n as nat),
{
    let v = chars_of(s);
    let mut r: Vec<String> = Vec::new();
    if n == 0 {
        assert(views_of(r@) =~= Seq::<Seq<char>>::empty());
        return r;
    }
    let mut i: usize = 0;
    let mut count: usize = 0;
    assert(v@.skip(0) =~= v@);
    assert(views_of(r@) =~= Seq::<Seq<char>>::empty());
    loop
        invariant
            v@ == s@,
            i <= v.len(),
            count < n,
            views_of(r@) + split_fields(v@.skip(i as int), sep, (n - count) as nat) == split_fields(s@, sep, n as nat),
        decreases n - count,
    {
        let ghost before = views_of(r@);
        if count + 1 == n {
            let mut last = String::new();
            append_range(&mut last, &v, i, v.len());
            r.push(last);
            assert(v@.skip(i as int) =~= v@.subrange(i as int, v.len() as int));
            assert(views_of(r@) =~= before.push(v@.skip(i as int)));
            assert(split_fields(v@.skip(i as int), sep, 1) == seq![v@.skip(i as int)]);
            assert(views_of(r@) =~= before + split_fields(v@.skip(i as int), sep, (n - count) as nat));
            return r;
        }
        let found = find_char_from(&v, sep, i);
        proof {
            lemma_find_in_rest(v@, sep, i as int, found);
        }
        match found {
            Some(k) => {
                let mut field = String::new();
                append_range(&mut field, &v, i, k);
                r.push(field);
                proof {
                    let t = v@.skip(i as int);
                    assert(t.take(k - i) =~= v@.subrange(i as int, k as int));
                    assert(t.skip(k - i + 1) =~= v@.skip(k + 1));
                    assert(views_of(r@) =~= before.push(v@.subrange(i as int, k as int)));
                    assert(split_fields(t, sep, (n - count) as nat) == seq![t.take(k - i)] + split_fields(
                        t.skip(k - i + 1),
                        sep,
                        (n - count - 1) as nat,
                    ));
                    assert(views_of(r@) + split_fields(v@.skip(k + 1), sep, (n - (count + 1)) as nat) =~= before
                        + split_fields(t, sep, (n - count) as nat));
                }
                i = k + 1;
                count = count + 1;
            },
            None => {
                let mut last = String::new();
                append_range(&mut last, &v, i, v.len());
                r.push(last);
                assert(v@.skip(i as int) =~= v@.subrange(i as int, v.len() as int));
                assert(views_of(r@) =~= before.push(v@.skip(i as int)));
                assert(split_fields(v@.skip(i as int), sep, (n - count) as nat) == seq![v@.skip(i as int)]);
                assert(views_of(r@) =~= before + split_fields(v@.skip(i as int), sep, (n - count) as nat));
                return r;
            },
        }
    }
}

/// Whether `c` is an ASCII decimal digit.
pub open spec fn is_ascii_digit(c: char) -> bool {
    '0' <= c && c <= '9'
}

/// The number that a run of decimal digits spells.
pub open spec fn digits_value(d: Seq<char>) -> nat
    decreases d.len(),
{
    if d.len() == 0 {
        0
    } else {
        digits_value(d.drop_last()) * 10 + ((d.last() as int) - ('0' as int)) as nat
    }
}

/// A longer run of digits spells at least as much.
pub proof fn lemma_digits_value_grows(d: Seq<char>, k: int)
    requires
        0 <= k <= d.len(),
        forall|i: int| 0 <= i < d.len() ==> is_ascii_digit(#[trigger] d[i]),
    ensures
        digits_value(d.take(k)) <= digits_value(d),
    decreases d.len() - k,
{
    if k < d.len() {
        lemma_digits_value_grows(d, k + 1);
        assert(d.take(k + 1).drop_last() =~= d.take(k));
    } else {
        assert(d.take(k) =~= d);
    }
}

/// The number spelled by `v[from..to]`, which holds only digits, if it is at
/// most `limit`.
pub fn parse_digits(v: &Vec<char>, from: usize, to: usize, limit: u64) -> (r: Option<u64>)
    requires
        from <= to <= v.len(),
        forall|i: int| from <= i < to ==> is_ascii_digit(#[trigger] v@[i]),
    ensures
        match r {
            Some(x) => x == digits_value(v@.subrange(from as int, to as int)) && x <= limit,
            None => digits_value(v@.subrange(from as int, to as int)) > limit,
        },
{
    let ghost d = v@.subrange(from as int, to as int);
    let mut acc: u64 = 0;
    let mut i = from;
    assert(d.take(0) =~= Seq::<char>::empty());
    while i < to
        invariant
            from <= i <= to <= v.len(),
            d == v@.subrange(from as int, to as int),
            forall|j: int| from <= j < to ==> is_ascii_digit(#[trigger] v@[j]),
            acc == digits_value(d.take(i - from)),
            acc <= limit,
        decreases to - i,
    {
        assert(d.take(i - from + 1).drop_last() =~= d.take(i - from));
        assert(d.take(i - from + 1).last() == v@[i as int]);
        assert(is_ascii_digit(v@[i as int]));
        let c = v[i];
        let digit: u64 = if c == '0' { 0 } else if c == '1' { 1 } else if c == '2' { 2 } else if c == '3' { 3 } else if c == '4' { 4 } else if c == '5' { 5 } else if c == '6' { 6 } else if c == '7' { 7 } else if c == '8' { 8 } else { 9 };
        assert(digit == (c as int) - ('0' as int));
        if digit > limit || acc > (limit - digit) / 10 {
            proof {
                assert(digits_value(d.take(i - from + 1)) > limit) by (nonlinear_arith)
                    requires
                        digits_value(d.take(i - from + 1)) == acc * 10 + digit,
                        digit > limit || acc > (limit - digit) / 10,
                        digit <= 9,
                        acc >= 0,
                ;
                assert forall|j: int| 0 <= j < d.len() implies is_ascii_digit(#[trigger] d[j]) by {
                    assert(d[j] == v@[from + j]);
                }
                lemma_digits_value_grows(d, i - from + 1);
            }
            return None;
        }
        assert(acc * 10 + digit <= limit) by (nonlinear_arith)
            requires
                digit <= limit,
                acc <= (limit - digit) / 10,
        ;
        acc = acc * 10 + digit;
        i += 1;
    }
    assert(d.take(to - from) =~= d);
    Some(acc)
}

} // verus!
