//! Colors and styles read from `jj`'s `colors` settings, and the styles the
//! tool's output uses.

use vstd::prelude::*;
use vstd::string::*;

use crate::output::Paint;
use crate::table::{byte_len, utf8_len};
use crate::text::{
    chars_of, digits_value, find_char_from, find_str, first_occurrence, index_of_char, is_ascii_digit,
    lemma_first_occurrence, lemma_index_of_char_first, lemma_index_of_char_none, lines, lines_of, parse_digits,
    str_equal, string_of, sub_chars, trim, trim_ws,
};

verus! {

/// A terminal color.
#[derive(Clone, Copy, Debug, PartialEq, Eq, Structural)]
pub enum ColorSpec {
    /// One of the sixteen named colors, black through bright white.
    Ansi(u8),
    /// An entry of the 256-color palette.
    Ansi256(u8),
    /// A true color.
    Rgb(u8, u8, u8),
}

/// A color setting: the terminal's default, or a color.
#[derive(Clone, Copy, Debug, PartialEq, Eq, Structural)]
pub enum ColorValue {
    /// The terminal's default color.
    Default,
    /// A color.
    Color(ColorSpec),
}

impl ColorValue {
    /// The color, if one is set.
    pub fn into_option(self) -> (r: Option<ColorSpec>)
        ensures
            r == match self {
                ColorValue::Default => None,
                ColorValue::Color(c) => Some(c),
            },
    {
        match self {
            ColorValue::Default => None,
            ColorValue::Color(c) => Some(c),
        }
    }
}

/// `c` in lower case, for ASCII letters.
pub open spec fn lower_ascii_char(c: char) -> char {
    if 'A' <= c && c <= 'Z' {
        ((c as u32) + 32) as char
    } else {
        c
    }
}

/// `s` with ASCII letters in lower case, as `str::to_ascii_lowercase`
/// gives it.
pub open spec fn lower_ascii(s: Seq<char>) -> Seq<char> {
    s.map_values(|c: char| lower_ascii_char(c))
}

fn lower_char(c: char) -> (r: char)
    ensures
        r == lower_ascii_char(c),
{
    if c >= 'A' && c <= 'Z' {
        let code: u32 = c as u32;
        let lowered: u8 = (code + 32) as u8;
        lowered as char
    } else {
        c
    }
}

/// `s` with ASCII letters in lower case.
pub fn to_ascii_lowercase(s: &str) -> (r: Vec<char>)
    ensures
        r@ == lower_ascii(s@),
{
    let v = chars_of(s);
    let mut out: Vec<char> = Vec::new();
    let mut i: usize = 0;
    while i < v.len()
        invariant
            i <= v@.len(),
            out@ == lower_ascii(v@.take(i as int)),
        decreases v@.len() - i,
    {
        out.push(lower_char(v[i]));
        i += 1;
        assert(lower_ascii(v@.take(i as int)) =~= lower_ascii(v@.take(i - 1)).push(lower_ascii_char(v@[i - 1])));
    }
    assert(v@.take(i as int) =~= v@);
    out
}

/// The index of a named color, black through bright white.
pub open spec fn named_color(s: Seq<char>) -> Option<u8> {
    if s == "black"@ {
        Some(0)
    } else if s == "red"@ {
        Some(1)
    } else if s == "green"@ {
        Some(2)
    } else if s == "yellow"@ {
        Some(3)
    } else if s == "blue"@ {
        Some(4)
    } else if s == "magenta"@ {
        Some(5)
    } else if s == "cyan"@ {
        Some(6)
    } else if s == "white"@ {
        Some(7)
    } else if s == "bright black"@ {
        Some(8)
    } else if s == "bright red"@ {
        Some(9)
    } else if s == "bright green"@ {
        Some(10)
    } else if s == "bright yellow"@ {
        Some(11)
    } else if s == "bright blue"@ {
        Some(12)
    } else if s == "bright magenta"@ {
        Some(13)
    } else if s == "bright cyan"@ {
        Some(14)
    } else if s == "bright white"@ {
        Some(15)
    } else {
        None
    }
}

fn lookup_named_color(s: &Vec<char>) -> (r: Option<u8>)
    ensures
        r == named_color(s@),
{
    let t = string_of(s);
    proof {
        reveal_strlit("black");
        reveal_strlit("red");
        reveal_strlit("green");
        reveal_strlit("yellow");
        reveal_strlit("blue");
        reveal_strlit("magenta");
        reveal_strlit("cyan");
        reveal_strlit("white");
        reveal_strlit("bright black");
        reveal_strlit("bright red");
        reveal_strlit("bright green");
        reveal_strlit("bright yellow");
        reveal_strlit("bright blue");
        reveal_strlit("bright magenta");
        reveal_strlit("bright cyan");
        reveal_strlit("bright white");
    }
    if str_equal(t.as_str(), "black") {
        Some(0)
    } else if str_equal(t.as_str(), "red") {
        Some(1)
    } else if str_equal(t.as_str(), "green") {
        Some(2)
    } else if str_equal(t.as_str(), "yellow") {
        Some(3)
    } else if str_equal(t.as_str(), "blue") {
        Some(4)
    } else if str_equal(t.as_str(), "magenta") {
        Some(5)
    } else if str_equal(t.as_str(), "cyan") {
        Some(6)
    } else if str_equal(t.as_str(), "white") {
        Some(7)
    } else if str_equal(t.as_str(), "bright black") {
        Some(8)
    } else if str_equal(t.as_str(), "bright red") {
        Some(9)
    } else if str_equal(t.as_str(), "bright green") {
        Some(10)
    } else if str_equal(t.as_str(), "bright yellow") {
        Some(11)
    } else if str_equal(t.as_str(), "bright blue") {
        Some(12)
    } else if str_equal(t.as_str(), "bright magenta") {
        Some(13)
    } else if str_equal(t.as_str(), "bright cyan") {
        Some(14)
    } else if str_equal(t.as_str(), "bright white") {
        Some(15)
    } else {
        None
    }
}

/// `s` without every leading copy of `prefix`, as `str::trim_start_matches`
/// gives it.
pub open spec fn strip_prefix_repeated(s: Seq<char>, prefix: Seq<char>) -> Seq<char>
    decreases s.len(),
{
    if prefix.len() > 0 && prefix.len() <= s.len() && s.take(prefix.len() as int) == prefix {
        strip_prefix_repeated(s.skip(prefix.len() as int), prefix)
    } else {
        s
    }
}

/// Whether every character of `s` is a decimal digit.
pub open spec fn all_digits(s: Seq<char>) -> bool {
    forall|i: int| 0 <= i < s.len() ==> is_ascii_digit(#[trigger] s[i])
}

/// The `u8` that `str::parse::<u8>` reads: an optional `+`, then one or
/// more digits spelling at most 255.
pub open spec fn u8_text(s: Seq<char>) -> Option<u8> {
    let d = if s.len() > 0 && s[0] == '+' {
        s.drop_first()
    } else {
        s
    };
    if d.len() > 0 && all_digits(d) && digits_value(d) <= 255 {
        Some(digits_value(d) as u8)
    } else {
        None
    }
}

/// The value of a hexadecimal digit.
pub open spec fn hex_digit(c: char) -> Option<u8> {
    if '0' <= c && c <= '9' {
        Some(((c as u32) - ('0' as u32)) as u8)
    } else if 'a' <= c && c <= 'f' {
        Some(((c as u32) - ('a' as u32) + 10) as u8)
    } else if 'A' <= c && c <= 'F' {
        Some(((c as u32) - ('A' as u32) + 10) as u8)
    } else {
        None
    }
}

/// The byte that `u8::from_str_radix(_, 16)` reads from two characters: an
/// optional `+` and one digit, or two digits.
pub open spec fn hex_pair(a: char, b: char) -> Option<u8> {
    if a == '+' {
        hex_digit(b)
    } else {
        match (hex_digit(a), hex_digit(b)) {
            (Some(x), Some(y)) => Some((x * 16 + y) as u8),
            _ => None,
        }
    }
}

/// The color named by a normalized (trimmed, lower-case) text: a color
/// name, `ansi-color-N`, or `#rrggbb`.
pub open spec fn color_of(s: Seq<char>) -> Option<ColorSpec> {
    if named_color(s) is Some {
        Some(ColorSpec::Ansi(named_color(s)->0))
    } else if s.len() >= 11 && s.take(11) == "ansi-color-"@ {
        match u8_text(strip_prefix_repeated(s, "ansi-color-"@)) {
            Some(code) => Some(ColorSpec::Ansi256(code)),
            None => None,
        }
    } else if s.len() > 0 && s[0] == '#' && byte_len(s) == 7 {
        if s.len() == 7 {
            match (hex_pair(s[1], s[2]), hex_pair(s[3], s[4]), hex_pair(s[5], s[6])) {
                (Some(r), Some(g), Some(b)) => Some(ColorSpec::Rgb(r, g, b)),
                _ => None,
            }
        } else {
            None
        }
    } else {
        None
    }
}

fn hex_value(c: char) -> (r: Option<u8>)
    ensures
        r == hex_digit(c),
{
    if c >= '0' && c <= '9' {
        Some(((c as u32) - ('0' as u32)) as u8)
    } else if c >= 'a' && c <= 'f' {
        Some(((c as u32) - ('a' as u32) + 10) as u8)
    } else if c >= 'A' && c <= 'F' {
        Some(((c as u32) - ('A' as u32) + 10) as u8)
    } else {
        None
    }
}

fn parse_hex_pair(a: char, b: char) -> (r: Option<u8>)
    ensures
        r == hex_pair(a, b),
{
    if a == '+' {
        return hex_value(b);
    }
    match (hex_value(a), hex_value(b)) {
        (Some(x), Some(y)) => Some(x * 16 + y),
        _ => None,
    }
}

fn parse_u8_text(s: &Vec<char>, from: usize) -> (r: Option<u8>)
    requires
        from <= s@.len(),
    ensures
        r == u8_text(s@.skip(from as int)),
{
    let ghost t = s@.skip(from as int);
    let mut start = from;
    if start < s.len() && s[start] == '+' {
        start = start + 1;
    }
    let ghost d = s@.subrange(start as int, s@.len() as int);
    assert(d =~= (if t.len() > 0 && t[0] == '+' { t.drop_first() } else { t }));
    if start == s.len() {
        assert(d.len() == 0);
        return None;
    }
    let mut i = start;
    while i < s.len()
        invariant
            start <= i <= s@.len(),
            t == s@.skip(from as int),
            d == s@.subrange(start as int, s@.len() as int),
            d == (if t.len() > 0 && t[0] == '+' { t.drop_first() } else { t }),
            forall|j: int| start <= j < i ==> is_ascii_digit(#[trigger] s@[j]),
        decreases s@.len() - i,
    {
        if !(s[i] >= '0' && s[i] <= '9') {
            assert(d[i - start] == s@[i as int]);
            assert(!all_digits(d));
            return None;
        }
        i += 1;
    }
    assert forall|j: int| 0 <= j < d.len() implies is_ascii_digit(#[trigger] d[j]) by {
        assert(d[j] == s@[start + j]);
    }
    assert(all_digits(d));
    match parse_digits(s, start, s.len(), 255) {
        Some(x) => Some(x as u8),
        None => None,
    }
}

fn starts_with_at(v: &Vec<char>, from: usize, p: &str) -> (r: bool)
    requires
        from <= v@.len(),
    ensures
        r == (p@.len() <= v@.len() - from && v@.subrange(from as int, from + p@.len()) == p@),
{
    let pv = chars_of(p);
    if pv.len() > v.len() - from {
        return false;
    }
    let mut j: usize = 0;
    while j < pv.len()
        invariant
            pv@ == p@,
            from <= v@.len(),
            from + pv@.len() <= v@.len(),
            v@.len() == v.len(),
            j <= pv@.len(),
            forall|k: int| 0 <= k < j ==> v@[from + k] == pv@[k],
        decreases pv@.len() - j,
    {
        assert(from + j < v.len());
        let at = from + j;
        if v[at] != pv[j] {
            assert(v@.subrange(from as int, from + p@.len())[j as int] != p@[j as int]);
            return false;
        }
        j += 1;
    }
    assert(v@.subrange(from as int, from + p@.len()) =~= p@);
    true
}

/// The color a setting names: its text is trimmed and lower-cased, then
/// read as a color name, `ansi-color-N` or `#rrggbb`.
pub fn parse_color(value: &str) -> (r: Option<ColorSpec>)
    ensures
        r == color_of(lower_ascii(trim_ws(value@))),
{
    let trimmed = trim(value);
    let n = to_ascii_lowercase(trimmed.as_str());
    if let Some(index) = lookup_named_color(&n) {
        return Some(ColorSpec::Ansi(index));
    }
    proof {
        reveal_strlit("ansi-color-");
    }
    if starts_with_at(&n, 0, "ansi-color-") {
        assert(n@.subrange(0, 11) =~= n@.take(11));
        let mut at: usize = 0;
        assert(n@.skip(0) =~= n@);
        while at <= n.len() - 11 && starts_with_at(&n, at, "ansi-color-")
            invariant
                at <= n@.len(),
                n@.len() >= 11,
                "ansi-color-"@.len() == 11,
                strip_prefix_repeated(n@, "ansi-color-"@) == strip_prefix_repeated(n@.skip(at as int), "ansi-color-"@),
            decreases n@.len() - at,
        {
            assert(n@.skip(at as int).take(11) =~= n@.subrange(at as int, at + 11));
            assert(n@.skip(at as int).skip(11) =~= n@.skip(at + 11));
            at = at + 11;
        }
        assert(!(n@.skip(at as int).len() >= 11 && n@.skip(at as int).take(11) == "ansi-color-"@)) by {
            if n@.skip(at as int).len() >= 11 {
                assert(at <= n@.len() - 11);
                assert(n@.skip(at as int).take(11) =~= n@.subrange(at as int, at + 11));
            }
        }
        return match parse_u8_text(&n, at) {
            Some(code) => Some(ColorSpec::Ansi256(code)),
            None => None,
        };
    }
    assert(!(n@.len() >= 11 && n@.take(11) == "ansi-color-"@)) by {
        if n@.len() >= 11 {
            assert(n@.subrange(0, 11) =~= n@.take(11));
        }
    }
    let text = string_of(&n);
    if n.len() > 0 && n[0] == '#' && utf8_len(text.as_str()) == 7 {
        if n.len() == 7 {
            return match (parse_hex_pair(n[1], n[2]), parse_hex_pair(n[3], n[4]), parse_hex_pair(n[5], n[6])) {
                (Some(r), Some(g), Some(b)) => Some(ColorSpec::Rgb(r, g, b)),
                _ => None,
            };
        }
        return None;
    }
    None
}

/// A color setting's value: `default`, or a color.
pub open spec fn color_value_of(value: Seq<char>) -> Option<ColorValue> {
    let n = lower_ascii(trim_ws(value));
    if n == "default"@ {
        Some(ColorValue::Default)
    } else {
        match color_of(lower_ascii(trim_ws(n))) {
            Some(c) => Some(ColorValue::Color(c)),
            None => None,
        }
    }
}

/// Read a color setting: `default`, or a color.
pub fn parse_color_value(value: &str) -> (r: Option<ColorValue>)
    ensures
        r == color_value_of(value@),
{
    let trimmed = trim(value);
    let n = to_ascii_lowercase(trimmed.as_str());
    let text = string_of(&n);
    proof {
        reveal_strlit("default");
    }
    if str_equal(text.as_str(), "default") {
        return Some(ColorValue::Default);
    }
    match parse_color(text.as_str()) {
        Some(c) => Some(ColorValue::Color(c)),
        None => None,
    }
}

/// A text style: colors and effects.
#[derive(Clone, Copy, Debug, PartialEq, Eq, Structural)]
pub struct ParsedStyle {
    /// Foreground color.
    pub fg: Option<ColorSpec>,
    /// Background color.
    pub bg: Option<ColorSpec>,
    /// Bold.
    pub bold: bool,
    /// Dimmed.
    pub dimmed: bool,
    /// Italic.
    pub italic: bool,
    /// Underlined.
    pub underline: bool,
    /// Reversed colors.
    pub invert: bool,
}

/// The style that changes nothing.
pub open spec fn plain_style() -> ParsedStyle {
    ParsedStyle { fg: None, bg: None, bold: false, dimmed: false, italic: false, underline: false, invert: false }
}

impl ParsedStyle {
    /// The style that changes nothing.
    pub fn plain() -> (r: ParsedStyle)
        ensures
            r == plain_style(),
    {
        ParsedStyle { fg: None, bg: None, bold: false, dimmed: false, italic: false, underline: false, invert: false }
    }
}

/// A style table as `jj` writes it: colors as text, effects as flags.
#[derive(Debug)]
pub struct RawStyleTable {
    /// Foreground color.
    pub fg: Option<String>,
    /// Background color.
    pub bg: Option<String>,
    /// Bold.
    pub bold: Option<bool>,
    /// Dimmed.
    pub dim: Option<bool>,
    /// Italic.
    pub italic: Option<bool>,
    /// Underlined.
    pub underline: Option<bool>,
    /// Reversed colors.
    pub reverse: Option<bool>,
}

/// A style setting as `jj` writes it: a color, or a style table.
#[derive(Debug)]
pub enum RawStyleValue {
    /// A foreground color.
    Color(String),
    /// A style table.
    Style(RawStyleTable),
}

/// The color of an optional color text.
pub open spec fn opt_color(text: Option<String>) -> Option<ColorSpec> {
    match text {
        Some(t) => color_of(lower_ascii(trim_ws(t@))),
        None => None,
    }
}

/// The style a style table gives.
pub open spec fn style_table_of(t: RawStyleTable) -> ParsedStyle {
    ParsedStyle {
        fg: opt_color(t.fg),
        bg: opt_color(t.bg),
        bold: t.bold == Some(true),
        dimmed: t.dim == Some(true),
        italic: t.italic == Some(true),
        underline: t.underline == Some(true),
        invert: t.reverse == Some(true),
    }
}

fn parse_opt_color(text: &Option<String>) -> (r: Option<ColorSpec>)
    ensures
        r == opt_color(*text),
{
    match text {
        Some(t) => parse_color(t.as_str()),
        None => None,
    }
}

fn flag(value: Option<bool>) -> (r: bool)
    ensures
        r == (value == Some(true)),
{
    match value {
        Some(b) => b,
        None => false,
    }
}

/// The style a style table gives: its colors, and the effects set to
/// `true`.
pub fn parse_style_table(style: &RawStyleTable) -> (r: ParsedStyle)
    ensures
        r == style_table_of(*style),
{
    ParsedStyle {
        fg: parse_opt_color(&style.fg),
        bg: parse_opt_color(&style.bg),
        bold: flag(style.bold),
        dimmed: flag(style.dim),
        italic: flag(style.italic),
        underline: flag(style.underline),
        invert: flag(style.reverse),
    }
}

/// The foreground color a color setting gives: none for `default` or an
/// unknown color.
pub open spec fn fg_of(value: Seq<char>) -> Option<ColorSpec> {
    match color_value_of(value) {
        Some(ColorValue::Color(c)) => Some(c),
        _ => None,
    }
}

/// The style a whole style setting gives, from the text and what TOML
/// reads from it: nothing for a blank text or one TOML does not read.
pub open spec fn style_setting_of(raw: Seq<char>, decoded: Option<RawStyleValue>) -> Option<ParsedStyle> {
    if trim_ws(raw).len() == 0 {
        None
    } else {
        match decoded {
            None => None,
            Some(RawStyleValue::Color(c)) => Some(ParsedStyle { fg: fg_of(c@), ..plain_style() }),
            Some(RawStyleValue::Style(t)) => Some(style_table_of(t)),
        }
    }
}

/// Read a whole style setting. `decoded` is what TOML reads from
/// `style = <raw>`, or, failing that, from the raw text quoted as a
/// string.
pub fn parse_style(raw: &str, decoded: Option<&RawStyleValue>) -> (r: Option<ParsedStyle>)
    ensures
        r == style_setting_of(raw@, match decoded { Some(d) => Some(*d), None => None }),
{
    let value = trim(raw);
    if value.as_str().unicode_len() == 0 {
        return None;
    }
    match decoded {
        None => None,
        Some(RawStyleValue::Color(c)) => {
            let fg = match parse_color_value(c.as_str()) {
                Some(v) => v.into_option(),
                None => None,
            };
            let mut style = ParsedStyle::plain();
            style.fg = fg;
            Some(style)
        },
        Some(RawStyleValue::Style(t)) => Some(parse_style_table(t)),
    }
}

/// A boolean setting: `true` or `false`, around whitespace.
pub open spec fn toml_bool_of(raw: Seq<char>) -> Option<bool> {
    if trim_ws(raw) == "true"@ {
        Some(true)
    } else if trim_ws(raw) == "false"@ {
        Some(false)
    } else {
        None
    }
}

/// Read a boolean setting.
pub fn parse_toml_bool(raw: &str) -> (r: Option<bool>)
    ensures
        r == toml_bool_of(raw@),
{
    let t = trim(raw);
    if str_equal(t.as_str(), "true") {
        Some(true)
    } else if str_equal(t.as_str(), "false") {
        Some(false)
    } else {
        None
    }
}

/// The string that the `toml` crate reads from `value = <raw>`, if it
/// reads a document whose `value` is a string.
pub uninterp spec fn toml_string_literal(raw: Seq<char>) -> Option<Seq<char>>;

/// Calls `toml::from_str` on `value = <raw>` as a `toml::Table` and takes
/// its `value` when that is a string. The result is the named reading.
#[verifier::external_body]
fn toml_string_value(raw: &str) -> (r: Option<String>)
    ensures
        match r {
            Some(s) => toml_string_literal(raw@) == Some(s@),
            None => toml_string_literal(raw@) is None,
        },
{
    match toml::from_str::<toml::Table>(&format!("value = {raw}")) {
        Ok(table) => match table.get("value") {
            Some(toml::Value::String(s)) => Some(s.clone()),
            _ => None,
        },
        Err(_) => None,
    }
}

/// Read a setting written as a TOML string.
pub fn parse_toml_string(raw: &str) -> (r: Option<String>)
    ensures
        match r {
            Some(s) => toml_string_literal(raw@) == Some(s@),
            None => toml_string_literal(raw@) is None,
        },
{
    toml_string_value(raw)
}

/// The color a color field sets: its TOML string read as a color setting.
pub open spec fn field_color_of(raw: Seq<char>) -> Option<ColorSpec> {
    match toml_string_literal(raw) {
        Some(t) => fg_of(t),
        None => None,
    }
}

/// The flag a boolean field sets, if it reads as one.
pub open spec fn set_flag(current: bool, raw: Seq<char>) -> bool {
    match toml_bool_of(raw) {
        Some(b) => b,
        None => current,
    }
}

/// A style after one setting: a whole style replaces it (when it reads),
/// `fg` and `bg` set a color, the effect fields set their flag, and other
/// fields change nothing.
pub open spec fn applied(style: ParsedStyle, field: Option<Seq<char>>, raw: Seq<char>, decoded: Option<RawStyleValue>) -> ParsedStyle {
    match field {
        None => match style_setting_of(raw, decoded) {
            Some(p) => p,
            None => style,
        },
        Some(f) => if f == "fg"@ {
            ParsedStyle { fg: field_color_of(raw), ..style }
        } else if f == "bg"@ {
            ParsedStyle { bg: field_color_of(raw), ..style }
        } else if f == "bold"@ {
            ParsedStyle { bold: set_flag(style.bold, raw), ..style }
        } else if f == "dim"@ {
            ParsedStyle { dimmed: set_flag(style.dimmed, raw), ..style }
        } else if f == "italic"@ {
            ParsedStyle { italic: set_flag(style.italic, raw), ..style }
        } else if f == "underline"@ {
            ParsedStyle { underline: set_flag(style.underline, raw), ..style }
        } else if f == "reverse"@ {
            ParsedStyle { invert: set_flag(style.invert, raw), ..style }
        } else {
            style
        },
    }
}

fn field_color(raw: &str) -> (r: Option<ColorSpec>)
    ensures
        r == field_color_of(raw@),
{
    match parse_toml_string(raw) {
        Some(t) => match parse_color_value(t.as_str()) {
            Some(v) => v.into_option(),
            None => None,
        },
        None => None,
    }
}

fn set_effect(current: bool, enabled: Option<bool>) -> (r: bool)
    ensures
        r == match enabled {
            Some(b) => b,
            None => current,
        },
{
    match enabled {
        Some(b) => b,
        None => current,
    }
}

/// Apply one color setting to a style.
pub fn apply_config_field(style: &mut ParsedStyle, field: Option<&str>, value: &str, decoded: Option<&RawStyleValue>)
    ensures
        *final(style) == applied(
            *old(style),
            match field { Some(f) => Some(f@), None => None },
            value@,
            match decoded { Some(d) => Some(*d), None => None },
        ),
{
    proof {
        reveal_strlit("fg");
        reveal_strlit("bg");
        reveal_strlit("bold");
        reveal_strlit("dim");
        reveal_strlit("italic");
        reveal_strlit("underline");
        reveal_strlit("reverse");
    }
    match field {
        None => {
            if let Some(parsed) = parse_style(value, decoded) {
                *style = parsed;
            }
        },
        Some(f) => {
            if str_equal(f, "fg") {
                style.fg = field_color(value);
            } else if str_equal(f, "bg") {
                style.bg = field_color(value);
            } else if str_equal(f, "bold") {
                style.bold = set_effect(style.bold, parse_toml_bool(value));
            } else if str_equal(f, "dim") {
                style.dimmed = set_effect(style.dimmed, parse_toml_bool(value));
            } else if str_equal(f, "italic") {
                style.italic = set_effect(style.italic, parse_toml_bool(value));
            } else if str_equal(f, "underline") {
                style.underline = set_effect(style.underline, parse_toml_bool(value));
            } else if str_equal(f, "reverse") {
                style.invert = set_effect(style.invert, parse_toml_bool(value));
            }
        },
    }
}

/// Whether a style changes the text it is applied to when color is on.
pub fn paint_needed(style: &ParsedStyle, color_enabled: bool) -> (r: bool)
    ensures
        r == (color_enabled && *style != plain_style()),
{
    color_enabled && !(style.fg.is_none() && style.bg.is_none() && !style.bold && !style.dimmed && !style.italic
        && !style.underline && !style.invert)
}

/// The last position of `c` in `s`.
pub open spec fn last_index_of(s: Seq<char>, c: char) -> Option<int>
    decreases s.len(),
{
    if s.len() == 0 {
        None
    } else if s.last() == c {
        Some(s.len() - 1)
    } else {
        last_index_of(s.drop_last(), c)
    }
}

/// A color key split into its label and field: a quoted label runs to its
/// closing quote, an unquoted one to the last `.`; the field is what
/// follows the `.`.
pub open spec fn color_key_parts(key: Seq<char>) -> (Seq<char>, Option<Seq<char>>) {
    if !(key.len() > 0 && key[0] == '"') {
        match last_index_of(key, '.') {
            Some(k) => (key.take(k), Some(key.skip(k + 1))),
            None => (key, None),
        }
    } else {
        match index_of_char(key.drop_first(), '"') {
            None => (key, None),
            Some(q) => {
                let label_end = q + 2;
                let remainder = key.skip(label_end);
                if remainder.len() > 0 && remainder[0] == '.' {
                    (key.take(label_end), Some(remainder.drop_first()))
                } else {
                    (key.take(label_end), None)
                }
            },
        }
    }
}

/// Split a color key into its label and field.
pub fn split_color_key(key: &str) -> (r: (String, Option<String>))
    ensures
        r.0@ == color_key_parts(key@).0,
        match r.1 {
            Some(f) => color_key_parts(key@).1 == Some(f@),
            None => color_key_parts(key@).1 is None,
        },
{
    let v = chars_of(key);
    if !(v.len() > 0 && v[0] == '"') {
        let mut i = v.len();
        assert(v@.take(i as int) =~= v@);
        while i > 0 && v[i - 1] != '.'
            invariant
                i <= v@.len(),
                last_index_of(v@, '.') == last_index_of(v@.take(i as int), '.'),
            decreases i,
        {
            assert(v@.take(i as int).drop_last() =~= v@.take(i - 1));
            i -= 1;
        }
        if i == 0 {
            assert(v@.take(0) =~= Seq::<char>::empty());
            return (key.to_owned(), None);
        }
        assert(v@.take(i as int).last() == '.');
        let label = string_of(&sub_chars(&v, 0, i - 1));
        let field = string_of(&sub_chars(&v, i, v.len()));
        assert(v@.subrange(0, i - 1) =~= v@.take(i - 1));
        assert(v@.subrange(i as int, v@.len() as int) =~= v@.skip(i as int));
        return (label, Some(field));
    }
    match find_char_from(&v, '"', 1) {
        None => {
            proof {
                let t = v@.drop_first();
                assert forall|i: int| 0 <= i < t.len() implies t[i] != '"' by {
                    assert(t[i] == v@[i + 1]);
                }
                lemma_index_of_char_none(t, '"');
            }
            (key.to_owned(), None)
        },
        Some(k) => {
            proof {
                let t = v@.drop_first();
                assert forall|i: int| 0 <= i < k - 1 implies t[i] != '"' by {
                    assert(t[i] == v@[i + 1]);
                }
                assert(t[k - 1] == v@[k as int]);
                lemma_index_of_char_first(t, '"', k - 1);
            }
            let label_end = k + 1;
            let label = string_of(&sub_chars(&v, 0, label_end));
            assert(v@.subrange(0, label_end as int) =~= v@.take(label_end as int));
            if label_end < v.len() && v[label_end] == '.' {
                let field = string_of(&sub_chars(&v, label_end + 1, v.len()));
                assert(v@.subrange(label_end + 1, v@.len() as int) =~= v@.skip(label_end as int).drop_first());
                (label, Some(field))
            } else {
                (label, None)
            }
        },
    }
}

/// One `colors` setting of `jj config list`: the style label, the field
/// it sets (none for a whole style), and the raw value.
#[derive(Debug)]
pub struct ColorSetting {
    /// The style label.
    pub label: String,
    /// The field set, if not the whole style.
    pub field: Option<String>,
    /// The raw TOML value.
    pub value: String,
}

/// The parts of a setting.
pub type SettingView = (Seq<char>, Option<Seq<char>>, Seq<char>);

impl View for ColorSetting {
    type V = SettingView;

    open spec fn view(&self) -> SettingView {
        (
            self.label@,
            match self.field {
                Some(f) => Some(f@),
                None => None,
            },
            self.value@,
        )
    }
}

/// The setting a line of `jj config list colors` holds: `colors.<key> =
/// <value>`; blank lines and other lines hold none.
pub open spec fn color_setting_of(line: Seq<char>) -> Option<SettingView> {
    if trim_ws(line).len() == 0 {
        None
    } else {
        match first_occurrence(line, " = "@, 0) {
            None => None,
            Some(k) => {
                let name = line.take(k);
                if name.len() >= 7 && name.take(7) == "colors."@ {
                    let parts = color_key_parts(name.skip(7));
                    Some((parts.0, parts.1, line.skip(k + 3)))
                } else {
                    None
                }
            },
        }
    }
}

/// The settings of the lines, in order.
pub open spec fn color_settings_of(lines: Seq<Seq<char>>) -> Seq<SettingView>
    decreases lines.len(),
{
    if lines.len() == 0 {
        Seq::empty()
    } else {
        color_settings_of(lines.drop_last()) + match color_setting_of(lines.last()) {
            Some(x) => seq![x],
            None => Seq::empty(),
        }
    }
}

fn setting_of_line(line: &Vec<char>) -> (r: Option<ColorSetting>)
    ensures
        match r {
            Some(x) => color_setting_of(line@) == Some(x@),
            None => color_setting_of(line@) is None,
        },
{
    let text = string_of(line);
    let t = trim(text.as_str());
    if t.as_str().unicode_len() == 0 {
        return None;
    }
    proof {
        reveal_strlit(" = ");
        reveal_strlit("colors.");
    }
    let k = match find_str(text.as_str(), " = ") {
        Some(k) => k,
        None => return None,
    };
    proof {
        lemma_first_occurrence(line@, " = "@, 0);
        assert(" = "@.len() == 3);
        let j = first_occurrence(line@, " = "@, 0)->0;
        assert(crate::text::occurs_at(line@, " = "@, j));
        assert(line@.len() == line.len());
        assert(k as int == j);
        assert(k + 3 <= line@.len());
    }
    let name = sub_chars(line, 0, k);
    assert(name@ =~= line@.take(k as int));
    let has_prefix = name.len() >= 7 && name[0] == 'c' && name[1] == 'o' && name[2] == 'l' && name[3] == 'o' && name[4]
        == 'r' && name[5] == 's' && name[6] == '.';
    proof {
        if name@.len() >= 7 {
            let head = name@.take(7);
            if has_prefix {
                assert(head =~= "colors."@);
            } else if head == "colors."@ {
                assert(head[0] == name@[0] && head[1] == name@[1] && head[2] == name@[2] && head[3] == name@[3]);
                assert(head[4] == name@[4] && head[5] == name@[5] && head[6] == name@[6]);
                assert(false);
            }
        }
    }
    if !has_prefix {
        return None;
    }
    let key = string_of(&sub_chars(&name, 7, name.len()));
    assert(name@.subrange(7, name@.len() as int) =~= name@.skip(7));
    let (label, field) = split_color_key(key.as_str());
    let value = string_of(&sub_chars(line, k + 3, line.len()));
    assert(line@.subrange(k + 3, line@.len() as int) =~= line@.skip(k + 3));
    Some(ColorSetting { label, field, value })
}

/// The settings in the output of `jj config list colors`, in order.
pub fn color_settings(config: &str) -> (r: Vec<ColorSetting>)
    ensures
        r@.map_values(|x: ColorSetting| x@) == color_settings_of(lines_of(config@)),
{
    let ls = lines(config);
    let ghost all = ls@.map_values(|l: Vec<char>| l@);
    let mut out: Vec<ColorSetting> = Vec::new();
    let mut i: usize = 0;
    assert(all.take(0) =~= Seq::<Seq<char>>::empty());
    while i < ls.len()
        invariant
            i <= ls@.len(),
            all == ls@.map_values(|l: Vec<char>| l@),
            out@.map_values(|x: ColorSetting| x@) == color_settings_of(all.take(i as int)),
        decreases ls@.len() - i,
    {
        assert(all.take(i + 1).drop_last() =~= all.take(i as int));
        assert(all.take(i + 1).last() == ls@[i as int]@);
        let ghost before = out@.map_values(|x: ColorSetting| x@);
        match setting_of_line(&ls[i]) {
            Some(x) => {
                out.push(x);
                assert(out@.map_values(|x: ColorSetting| x@) =~= before.push(out@[out@.len() - 1]@));
            },
            None => {},
        }
        i += 1;
    }
    assert(all.take(i as int) =~= all);
    out
}

/// The style the first entry for `label` holds.
pub open spec fn style_lookup(entries: Seq<(String, ParsedStyle)>, label: Seq<char>) -> Option<ParsedStyle>
    decreases entries.len(),
{
    if entries.len() == 0 {
        None
    } else if entries[0].0@ == label {
        Some(entries[0].1)
    } else {
        style_lookup(entries.drop_first(), label)
    }
}

/// The styles that a run of settings builds, by label: each setting
/// applies to the style its label has so far, or to the plain style.
pub open spec fn styles_model(settings: Seq<SettingView>, decoded: Seq<Option<RawStyleValue>>, n: int) -> Map<Seq<char>, ParsedStyle>
    decreases n,
{
    if n <= 0 {
        Map::empty()
    } else {
        let m = styles_model(settings, decoded, n - 1);
        let s = settings[n - 1];
        let current = if m.contains_key(s.0) {
            m[s.0]
        } else {
            plain_style()
        };
        m.insert(s.0, applied(current, s.1, s.2, decoded[n - 1]))
    }
}

/// The styles read from `jj`'s color settings, by label.
#[derive(Debug)]
pub struct ColorStyles {
    /// Each label once, with its style.
    pub entries: Vec<(String, ParsedStyle)>,
}

/// Whether the entries hold exactly the styles of `m`.
pub open spec fn entries_hold(entries: Seq<(String, ParsedStyle)>, m: Map<Seq<char>, ParsedStyle>) -> bool {
    forall|label: Seq<char>| #[trigger] style_lookup(entries, label) == if m.contains_key(label) {
        Some(m[label])
    } else {
        None
    }
}

proof fn lemma_lookup_push(f: Seq<(String, ParsedStyle)>, entry: (String, ParsedStyle), q: Seq<char>)
    ensures
        style_lookup(f.push(entry), q) == match style_lookup(f, q) {
            Some(x) => Some(x),
            None => if entry.0@ == q {
                Some(entry.1)
            } else {
                None
            },
        },
    decreases f.len(),
{
    if f.len() > 0 {
        assert(f.push(entry)[0] == f[0]);
        assert(f.push(entry).drop_first() =~= f.drop_first().push(entry));
        lemma_lookup_push(f.drop_first(), entry, q);
    } else {
        assert(f.push(entry)[0] == entry);
        assert(f.push(entry).drop_first() =~= Seq::<(String, ParsedStyle)>::empty());
        assert(style_lookup(Seq::<(String, ParsedStyle)>::empty(), q) is None);
    }
}

proof fn lemma_lookup_update(f: Seq<(String, ParsedStyle)>, i: int, entry: (String, ParsedStyle), q: Seq<char>)
    requires
        0 <= i < f.len(),
        f[i].0@ == entry.0@,
        forall|j: int| 0 <= j < i ==> (#[trigger] f[j]).0@ != entry.0@,
    ensures
        style_lookup(f.update(i, entry), q) == if q == entry.0@ {
            Some(entry.1)
        } else {
            style_lookup(f, q)
        },
    decreases i,
{
    if i == 0 {
        assert(f.update(0, entry)[0] == entry);
        assert(f.update(0, entry).drop_first() =~= f.drop_first());
    } else {
        assert(f.update(i, entry)[0] == f[0]);
        assert(f.update(i, entry).drop_first() =~= f.drop_first().update(i - 1, entry));
        assert forall|j: int| 0 <= j < i - 1 implies (#[trigger] f.drop_first()[j]).0@ != entry.0@ by {
            assert(f.drop_first()[j] == f[j + 1]);
        }
        lemma_lookup_update(f.drop_first(), i - 1, entry, q);
        assert(f[0].0@ != entry.0@);
    }
}

proof fn lemma_lookup_first(f: Seq<(String, ParsedStyle)>, i: int)
    requires
        0 <= i < f.len(),
        forall|j: int| 0 <= j < i ==> (#[trigger] f[j]).0@ != f[i].0@,
    ensures
        style_lookup(f, f[i].0@) == Some(f[i].1),
    decreases i,
{
    if i > 0 {
        assert forall|j: int| 0 <= j < i - 1 implies (#[trigger] f.drop_first()[j]).0@ != f.drop_first()[i - 1].0@ by {
            assert(f.drop_first()[j] == f[j + 1]);
        }
        lemma_lookup_first(f.drop_first(), i - 1);
        assert(f[0].0@ != f[i].0@);
    }
}

proof fn lemma_lookup_none(f: Seq<(String, ParsedStyle)>, q: Seq<char>)
    requires
        forall|j: int| 0 <= j < f.len() ==> (#[trigger] f[j]).0@ != q,
    ensures
        style_lookup(f, q) is None,
    decreases f.len(),
{
    if f.len() > 0 {
        assert forall|j: int| 0 <= j < f.drop_first().len() implies (#[trigger] f.drop_first()[j]).0@ != q by {
            assert(f.drop_first()[j] == f[j + 1]);
        }
        lemma_lookup_none(f.drop_first(), q);
    }
}

fn find_label(entries: &Vec<(String, ParsedStyle)>, label: &str) -> (r: Option<usize>)
    ensures
        match r {
            Some(i) => i < entries@.len() && entries@[i as int].0@ == label@ && forall|j: int|
                0 <= j < i ==> (#[trigger] entries@[j]).0@ != label@,
            None => forall|j: int| 0 <= j < entries@.len() ==> (#[trigger] entries@[j]).0@ != label@,
        },
{
    let mut i: usize = 0;
    while i < entries.len()
        invariant
            i <= entries@.len(),
            forall|j: int| 0 <= j < i ==> (#[trigger] entries@[j]).0@ != label@,
        decreases entries@.len() - i,
    {
        if str_equal(entries[i].0.as_str(), label) {
            return Some(i);
        }
        i += 1;
    }
    None
}

/// Build the styles from `jj`'s color settings, applied in order; each
/// setting comes with what TOML reads from its value as a whole style.
pub fn apply_color_settings(settings: &[ColorSetting], decoded: &[Option<RawStyleValue>]) -> (r: ColorStyles)
    requires
        settings@.len() == decoded@.len(),
    ensures
        entries_hold(r.entries@, styles_model(settings@.map_values(|x: ColorSetting| x@), decoded@, settings@.len() as int)),
{
    let ghost sv = settings@.map_values(|x: ColorSetting| x@);
    let mut entries: Vec<(String, ParsedStyle)> = Vec::new();
    let mut k: usize = 0;
    proof {
        assert forall|label: Seq<char>| #[trigger] style_lookup(entries@, label) == if styles_model(sv, decoded@, 0).contains_key(label) {
            Some(styles_model(sv, decoded@, 0)[label])
        } else {
            None
        } by {
            assert(styles_model(sv, decoded@, 0) =~= Map::<Seq<char>, ParsedStyle>::empty());
        }
    }
    while k < settings.len()
        invariant
            k <= settings@.len(),
            settings@.len() == decoded@.len(),
            sv == settings@.map_values(|x: ColorSetting| x@),
            entries_hold(entries@, styles_model(sv, decoded@, k as int)),
        decreases settings@.len() - k,
    {
        let setting = &settings[k];
        let ghost m = styles_model(sv, decoded@, k as int);
        let ghost before = entries@;
        assert(sv[k as int] == setting@);
        let found = find_label(&entries, setting.label.as_str());
        let decoded_value = match &decoded[k] {
            Some(d) => Some(d),
            None => None,
        };
        let field = match &setting.field {
            Some(f) => Some(f.as_str()),
            None => None,
        };
        if let Some(i) = found {
            proof {
                lemma_lookup_first(before, i as int);
            }
            let mut style = entries[i].1;
            apply_config_field(&mut style, field, setting.value.as_str(), decoded_value);
            let entry = (setting.label.clone(), style);
            proof {
                assert forall|q: Seq<char>| #[trigger] style_lookup(before.update(i as int, entry), q) == if q == setting.label@ {
                    Some(entry.1)
                } else {
                    style_lookup(before, q)
                } by {
                    lemma_lookup_update(before, i as int, entry, q);
                }
            }
            entries.set(i, entry);
            assert(entries@ =~= before.update(i as int, entry));
        } else {
            proof {
                lemma_lookup_none(before, setting.label@);
            }
            let mut style = ParsedStyle::plain();
            apply_config_field(&mut style, field, setting.value.as_str(), decoded_value);
            let entry = (setting.label.clone(), style);
            proof {
                assert forall|q: Seq<char>| #[trigger] style_lookup(before.push(entry), q) == match style_lookup(before, q) {
                    Some(x) => Some(x),
                    None => if entry.0@ == q {
                        Some(entry.1)
                    } else {
                        None
                    },
                } by {
                    lemma_lookup_push(before, entry, q);
                }
            }
            entries.push(entry);
            assert(entries@ =~= before.push(entry));
        }
        k += 1;
    }
    ColorStyles { entries }
}

/// The style of the first candidate label that has one, else the plain
/// style.
pub open spec fn candidates_style(entries: Seq<(String, ParsedStyle)>, candidates: Seq<Seq<char>>) -> ParsedStyle
    decreases candidates.len(),
{
    if candidates.len() == 0 {
        plain_style()
    } else {
        match style_lookup(entries, candidates[0]) {
            Some(st) => st,
            None => candidates_style(entries, candidates.drop_first()),
        }
    }
}

fn lookup_style(entries: &Vec<(String, ParsedStyle)>, label: &str) -> (r: Option<ParsedStyle>)
    ensures
        r == style_lookup(entries@, label@),
{
    let mut i: usize = 0;
    assert(entries@.skip(0) =~= entries@);
    while i < entries.len()
        invariant
            i <= entries@.len(),
            style_lookup(entries@, label@) == style_lookup(entries@.skip(i as int), label@),
        decreases entries@.len() - i,
    {
        assert(entries@.skip(i as int).drop_first() =~= entries@.skip(i + 1));
        assert(entries@.skip(i as int)[0] == entries@[i as int]);
        if str_equal(entries[i].0.as_str(), label) {
            return Some(entries[i].1);
        }
        i += 1;
    }
    assert(entries@.skip(i as int) =~= Seq::<(String, ParsedStyle)>::empty());
    None
}

/// The style of the first candidate label that has one, else the plain
/// style.
pub fn style_from_candidates(styles: &ColorStyles, candidates: &[&str]) -> (r: ParsedStyle)
    ensures
        r == candidates_style(styles.entries@, candidates@.map_values(|c: &str| c@)),
{
    let ghost cs = candidates@.map_values(|c: &str| c@);
    let mut i: usize = 0;
    assert(cs.skip(0) =~= cs);
    while i < candidates.len()
        invariant
            i <= candidates@.len(),
            cs == candidates@.map_values(|c: &str| c@),
            candidates_style(styles.entries@, cs) == candidates_style(styles.entries@, cs.skip(i as int)),
        decreases candidates@.len() - i,
    {
        assert(cs.skip(i as int).drop_first() =~= cs.skip(i + 1));
        assert(cs.skip(i as int)[0] == candidates@[i as int]@);
        match lookup_style(&styles.entries, candidates[i]) {
            Some(st) => return st,
            None => {},
        }
        i += 1;
    }
    assert(cs.skip(i as int) =~= Seq::<Seq<char>>::empty());
    ParsedStyle::plain()
}

/// The styles of the tool's output, each from the first of its candidate
/// `jj` color labels that is set.
#[derive(Clone, Copy, Debug)]
pub struct OutputTheme {
    /// The `clap_header` style.
    pub clap_header: ParsedStyle,
    /// The `clap_literal` style.
    pub clap_literal: ParsedStyle,
    /// The `clap_placeholder` style.
    pub clap_placeholder: ParsedStyle,
    /// The `clap_error` style.
    pub clap_error: ParsedStyle,
    /// The `clap_valid` style.
    pub clap_valid: ParsedStyle,
    /// The `clap_invalid` style.
    pub clap_invalid: ParsedStyle,
    /// The `error_prefix` style.
    pub error_prefix: ParsedStyle,
    /// The `warning_prefix` style.
    pub warning_prefix: ParsedStyle,
    /// The `hint_prefix` style.
    pub hint_prefix: ParsedStyle,
    /// The `doctor_heading` style.
    pub doctor_heading: ParsedStyle,
    /// The `table_header` style.
    pub table_header: ParsedStyle,
    /// The `section_label` style.
    pub section_label: ParsedStyle,
    /// The `detail_label` style.
    pub detail_label: ParsedStyle,
    /// The `warning_badge` style.
    pub warning_badge: ParsedStyle,
    /// The `error_badge` style.
    pub error_badge: ParsedStyle,
    /// The `ok_badge` style.
    pub ok_badge: ParsedStyle,
    /// The `inferred_badge` style.
    pub inferred_badge: ParsedStyle,
    /// The `missing_badge` style.
    pub missing_badge: ParsedStyle,
    /// The `stale_badge` style.
    pub stale_badge: ParsedStyle,
    /// The `jj_only_badge` style.
    pub jj_only_badge: ParsedStyle,
    /// The `current_workspace` style.
    pub current_workspace: ParsedStyle,
    /// The `meta` style.
    pub meta: ParsedStyle,
    /// The `inferred_path` style.
    pub inferred_path: ParsedStyle,
    /// The `missing_path` style.
    pub missing_path: ParsedStyle,
    /// The `stale_path` style.
    pub stale_path: ParsedStyle,
    /// The `diff_files` style.
    pub diff_files: ParsedStyle,
    /// The `diff_insertions` style.
    pub diff_insertions: ParsedStyle,
    /// The `diff_deletions` style.
    pub diff_deletions: ParsedStyle,
}

impl OutputTheme {
    /// Pick every style of the output from the color settings.
    pub fn load(styles: &ColorStyles) -> (r: OutputTheme)
        ensures
            r.clap_header == candidates_style(styles.entries@, seq!["\"navi.header\""@, "\"warning heading\""@]),
            r.clap_literal == candidates_style(styles.entries@, seq!["\"navi.literal\""@, "working_copies"@]),
            r.clap_placeholder == candidates_style(styles.entries@, seq!["\"navi.placeholder\""@, "working_copies"@]),
            r.clap_error == candidates_style(styles.entries@, seq!["\"navi.error\""@, "\"error heading\""@]),
            r.clap_valid == candidates_style(styles.entries@, seq!["\"navi.valid\""@, "working_copies"@]),
            r.clap_invalid == candidates_style(styles.entries@, seq!["\"navi.invalid\""@, "\"error heading\""@]),
            r.error_prefix == candidates_style(styles.entries@, seq!["\"navi.error\""@, "\"error heading\""@, "error"@]),
            r.warning_prefix == candidates_style(styles.entries@, seq!["\"navi.warning\""@, "\"warning heading\""@, "warning"@]),
            r.hint_prefix == candidates_style(styles.entries@, seq!["\"navi.hint\""@, "\"hint heading\""@, "hint"@]),
            r.doctor_heading == candidates_style(styles.entries@, seq!["\"navi.header\""@, "\"warning heading\""@]),
            r.table_header == candidates_style(styles.entries@, seq!["\"navi.section\""@, "\"hint heading\""@]),
            r.section_label == candidates_style(styles.entries@, seq!["\"navi.section\""@, "\"hint heading\""@]),
            r.detail_label == candidates_style(styles.entries@, seq!["\"navi.detail\""@, "hint"@]),
            r.warning_badge == candidates_style(styles.entries@, seq!["\"navi.warning\""@, "warning"@]),
            r.error_badge == candidates_style(styles.entries@, seq!["\"navi.error\""@, "error"@]),
            r.ok_badge == candidates_style(styles.entries@, seq!["\"navi.status.ok\""@, "working_copies"@]),
            r.inferred_badge == candidates_style(styles.entries@, seq!["\"navi.status.inferred\""@, "bookmarks"@]),
            r.missing_badge == candidates_style(styles.entries@, seq!["\"navi.status.missing\""@, "\"description placeholder\""@]),
            r.stale_badge == candidates_style(styles.entries@, seq!["\"navi.status.stale\""@, "conflict"@]),
            r.jj_only_badge == candidates_style(styles.entries@, seq!["\"navi.status.jj_only\""@, "tag"@]),
            r.current_workspace == candidates_style(styles.entries@, seq!["\"navi.current\""@, "working_copy"@, "\"working_copy bookmarks\""@]),
            r.meta == candidates_style(styles.entries@, seq!["\"navi.meta\""@, "rest"@, "separator"@]),
            r.inferred_path == candidates_style(styles.entries@, seq!["\"navi.path.inferred\""@, "bookmark"@]),
            r.missing_path == candidates_style(styles.entries@, seq!["\"navi.path.missing\""@, "\"description placeholder\""@]),
            r.stale_path == candidates_style(styles.entries@, seq!["\"navi.path.stale\""@, "conflict"@]),
            r.diff_files == candidates_style(styles.entries@, seq!["\"navi.diff.files\""@, "rest"@, "separator"@]),
            r.diff_insertions == candidates_style(styles.entries@, seq!["\"navi.diff.insertions\""@, "\"diff added token\""@, "working_copies"@, "green"@]),
            r.diff_deletions == candidates_style(styles.entries@, seq!["\"navi.diff.deletions\""@, "\"diff removed token\""@, "conflict"@, "red"@]),
    {
        let clap_header_candidates: [&str; 2] = ["\"navi.header\"", "\"warning heading\""];
        assert(clap_header_candidates@.map_values(|c: &str| c@) =~= seq!["\"navi.header\""@, "\"warning heading\""@]);
        let clap_header = style_from_candidates(styles, &clap_header_candidates);
        let clap_literal_candidates: [&str; 2] = ["\"navi.literal\"", "working_copies"];
        assert(clap_literal_candidates@.map_values(|c: &str| c@) =~= seq!["\"navi.literal\""@, "working_copies"@]);
        let clap_literal = style_from_candidates(styles, &clap_literal_candidates);
        let clap_placeholder_candidates: [&str; 2] = ["\"navi.placeholder\"", "working_copies"];
        assert(clap_placeholder_candidates@.map_values(|c: &str| c@) =~= seq!["\"navi.placeholder\""@, "working_copies"@]);
        let clap_placeholder = style_from_candidates(styles, &clap_placeholder_candidates);
        let clap_error_candidates: [&str; 2] = ["\"navi.error\"", "\"error heading\""];
        assert(clap_error_candidates@.map_values(|c: &str| c@) =~= seq!["\"navi.error\""@, "\"error heading\""@]);
        let clap_error = style_from_candidates(styles, &clap_error_candidates);
        let clap_valid_candidates: [&str; 2] = ["\"navi.valid\"", "working_copies"];
        assert(clap_valid_candidates@.map_values(|c: &str| c@) =~= seq!["\"navi.valid\""@, "working_copies"@]);
        let clap_valid = style_from_candidates(styles, &clap_valid_candidates);
        let clap_invalid_candidates: [&str; 2] = ["\"navi.invalid\"", "\"error heading\""];
        assert(clap_invalid_candidates@.map_values(|c: &str| c@) =~= seq!["\"navi.invalid\""@, "\"error heading\""@]);
        let clap_invalid = style_from_candidates(styles, &clap_invalid_candidates);
        let error_prefix_candidates: [&str; 3] = ["\"navi.error\"", "\"error heading\"", "error"];
        assert(error_prefix_candidates@.map_values(|c: &str| c@) =~= seq!["\"navi.error\""@, "\"error heading\""@, "error"@]);
        let error_prefix = style_from_candidates(styles, &error_prefix_candidates);
        let warning_prefix_candidates: [&str; 3] = ["\"navi.warning\"", "\"warning heading\"", "warning"];
        assert(warning_prefix_candidates@.map_values(|c: &str| c@) =~= seq!["\"navi.warning\""@, "\"warning heading\""@, "warning"@]);
        let warning_prefix = style_from_candidates(styles, &warning_prefix_candidates);
        let hint_prefix_candidates: [&str; 3] = ["\"navi.hint\"", "\"hint heading\"", "hint"];
        assert(hint_prefix_candidates@.map_values(|c: &str| c@) =~= seq!["\"navi.hint\""@, "\"hint heading\""@, "hint"@]);
        let hint_prefix = style_from_candidates(styles, &hint_prefix_candidates);
        let doctor_heading_candidates: [&str; 2] = ["\"navi.header\"", "\"warning heading\""];
        assert(doctor_heading_candidates@.map_values(|c: &str| c@) =~= seq!["\"navi.header\""@, "\"warning heading\""@]);
        let doctor_heading = style_from_candidates(styles, &doctor_heading_candidates);
        let table_header_candidates: [&str; 2] = ["\"navi.section\"", "\"hint heading\""];
        assert(table_header_candidates@.map_values(|c: &str| c@) =~= seq!["\"navi.section\""@, "\"hint heading\""@]);
        let table_header = style_from_candidates(styles, &table_header_candidates);
        let section_label_candidates: [&str; 2] = ["\"navi.section\"", "\"hint heading\""];
        assert(section_label_candidates@.map_values(|c: &str| c@) =~= seq!["\"navi.section\""@, "\"hint heading\""@]);
        let section_label = style_from_candidates(styles, &section_label_candidates);
        let detail_label_candidates: [&str; 2] = ["\"navi.detail\"", "hint"];
        assert(detail_label_candidates@.map_values(|c: &str| c@) =~= seq!["\"navi.detail\""@, "hint"@]);
        let detail_label = style_from_candidates(styles, &detail_label_candidates);
        let warning_badge_candidates: [&str; 2] = ["\"navi.warning\"", "warning"];
        assert(warning_badge_candidates@.map_values(|c: &str| c@) =~= seq!["\"navi.warning\""@, "warning"@]);
        let warning_badge = style_from_candidates(styles, &warning_badge_candidates);
        let error_badge_candidates: [&str; 2] = ["\"navi.error\"", "error"];
        assert(error_badge_candidates@.map_values(|c: &str| c@) =~= seq!["\"navi.error\""@, "error"@]);
        let error_badge = style_from_candidates(styles, &error_badge_candidates);
        let ok_badge_candidates: [&str; 2] = ["\"navi.status.ok\"", "working_copies"];
        assert(ok_badge_candidates@.map_values(|c: &str| c@) =~= seq!["\"navi.status.ok\""@, "working_copies"@]);
        let ok_badge = style_from_candidates(styles, &ok_badge_candidates);
        let inferred_badge_candidates: [&str; 2] = ["\"navi.status.inferred\"", "bookmarks"];
        assert(inferred_badge_candidates@.map_values(|c: &str| c@) =~= seq!["\"navi.status.inferred\""@, "bookmarks"@]);
        let inferred_badge = style_from_candidates(styles, &inferred_badge_candidates);
        let missing_badge_candidates: [&str; 2] = ["\"navi.status.missing\"", "\"description placeholder\""];
        assert(missing_badge_candidates@.map_values(|c: &str| c@) =~= seq!["\"navi.status.missing\""@, "\"description placeholder\""@]);
        let missing_badge = style_from_candidates(styles, &missing_badge_candidates);
        let stale_badge_candidates: [&str; 2] = ["\"navi.status.stale\"", "conflict"];
        assert(stale_badge_candidates@.map_values(|c: &str| c@) =~= seq!["\"navi.status.stale\""@, "conflict"@]);
        let stale_badge = style_from_candidates(styles, &stale_badge_candidates);
        let jj_only_badge_candidates: [&str; 2] = ["\"navi.status.jj_only\"", "tag"];
        assert(jj_only_badge_candidates@.map_values(|c: &str| c@) =~= seq!["\"navi.status.jj_only\""@, "tag"@]);
        let jj_only_badge = style_from_candidates(styles, &jj_only_badge_candidates);
        let current_workspace_candidates: [&str; 3] = ["\"navi.current\"", "working_copy", "\"working_copy bookmarks\""];
        assert(current_workspace_candidates@.map_values(|c: &str| c@) =~= seq!["\"navi.current\""@, "working_copy"@, "\"working_copy bookmarks\""@]);
        let current_workspace = style_from_candidates(styles, &current_workspace_candidates);
        let meta_candidates: [&str; 3] = ["\"navi.meta\"", "rest", "separator"];
        assert(meta_candidates@.map_values(|c: &str| c@) =~= seq!["\"navi.meta\""@, "rest"@, "separator"@]);
        let meta = style_from_candidates(styles, &meta_candidates);
        let inferred_path_candidates: [&str; 2] = ["\"navi.path.inferred\"", "bookmark"];
        assert(inferred_path_candidates@.map_values(|c: &str| c@) =~= seq!["\"navi.path.inferred\""@, "bookmark"@]);
        let inferred_path = style_from_candidates(styles, &inferred_path_candidates);
        let missing_path_candidates: [&str; 2] = ["\"navi.path.missing\"", "\"description placeholder\""];
        assert(missing_path_candidates@.map_values(|c: &str| c@) =~= seq!["\"navi.path.missing\""@, "\"description placeholder\""@]);
        let missing_path = style_from_candidates(styles, &missing_path_candidates);
        let stale_path_candidates: [&str; 2] = ["\"navi.path.stale\"", "conflict"];
        assert(stale_path_candidates@.map_values(|c: &str| c@) =~= seq!["\"navi.path.stale\""@, "conflict"@]);
        let stale_path = style_from_candidates(styles, &stale_path_candidates);
        let diff_files_candidates: [&str; 3] = ["\"navi.diff.files\"", "rest", "separator"];
        assert(diff_files_candidates@.map_values(|c: &str| c@) =~= seq!["\"navi.diff.files\""@, "rest"@, "separator"@]);
        let diff_files = style_from_candidates(styles, &diff_files_candidates);
        let diff_insertions_candidates: [&str; 4] = ["\"navi.diff.insertions\"", "\"diff added token\"", "working_copies", "green"];
        assert(diff_insertions_candidates@.map_values(|c: &str| c@) =~= seq!["\"navi.diff.insertions\""@, "\"diff added token\""@, "working_copies"@, "green"@]);
        let diff_insertions = style_from_candidates(styles, &diff_insertions_candidates);
        let diff_deletions_candidates: [&str; 4] = ["\"navi.diff.deletions\"", "\"diff removed token\"", "conflict", "red"];
        assert(diff_deletions_candidates@.map_values(|c: &str| c@) =~= seq!["\"navi.diff.deletions\""@, "\"diff removed token\""@, "conflict"@, "red"@]);
        let diff_deletions = style_from_candidates(styles, &diff_deletions_candidates);
        OutputTheme {
            clap_header,
            clap_literal,
            clap_placeholder,
            clap_error,
            clap_valid,
            clap_invalid,
            error_prefix,
            warning_prefix,
            hint_prefix,
            doctor_heading,
            table_header,
            section_label,
            detail_label,
            warning_badge,
            error_badge,
            ok_badge,
            inferred_badge,
            missing_badge,
            stale_badge,
            jj_only_badge,
            current_workspace,
            meta,
            inferred_path,
            missing_path,
            stale_path,
            diff_files,
            diff_insertions,
            diff_deletions,
        }
    }
}

} // verus!
