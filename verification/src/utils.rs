//! Text utilities of the user interface: channel-name cleaning, command-line
//! splitting and decimal formatting.

use vstd::prelude::*;
use crate::chars::{from_chars, to_chars};
use crate::status_bar::byte_len;
use vstd::utf8::{encode_scalar, encode_utf8};
use crate::text::{in_set, is_whitespace, is_ws, split_chars, split_on, strip_end, strip_start, strip_start_in, trim, trim_chars, ws_pred};
use crate::theme::Color;
use crate::commands::{decimal_value, is_digit};

verus! {

/// Whether a character matches the class
/// `[\p{Extended_Pictographic}\p{Emoji_Presentation}\u{FE0F}\u{200D}\u{20E3}]`
/// of the `regex` crate: an emoji, a pictograph, or an emoji joiner or
/// modifier.
pub uninterp spec fn emoji_char(c: char) -> bool;

/// The string with every emoji character removed.
pub open spec fn remove_emoji(s: Seq<char>) -> Seq<char> {
    s.filter(|c: char| !emoji_char(c))
}

/// Removes emoji characters with the `regex` crate: the pattern is a single
/// character class, so `replace_all` deletes exactly the characters in it.
#[verifier::external_body]
fn remove_emoji_exec(s: &str) -> (r: String)
    ensures
        r@ == s@.filter(|c: char| !emoji_char(c)),
{
    let pattern = r"[\p{Extended_Pictographic}\p{Emoji_Presentation}\u{FE0F}\u{200D}\u{20E3}]";
    match regex::Regex::new(pattern) {
        Ok(re) => re.replace_all(s, "").into_owned(),
        Err(_) => s.to_string(),
    }
}

/// The characters `-` and `|`.
pub open spec fn dash_bar() -> Seq<char> {
    seq!['-', '|']
}

/// Emoji removed, then surrounding whitespace, then leading `-` and `|`,
/// then surrounding whitespace again.
pub open spec fn spec_clean_text(s: Seq<char>) -> Seq<char> {
    trim(strip_start(trim(remove_emoji(s)), in_set(dash_bar())))
}

/// Removes emojis and decorations from a name.
pub fn clean_text(s: &str) -> (r: String)
    ensures
        r@ == spec_clean_text(s@),
{
    let stripped = remove_emoji_exec(s);
    let v = to_chars(stripped.as_str());
    let t = trim_chars(&v);
    let mut set: Vec<char> = Vec::new();
    set.push('-');
    set.push('|');
    assert(set@ =~= dash_bar());
    let u = strip_start_in(&t, &set);
    let w = trim_chars(&u);
    from_chars(&w)
}

/// Channel-name prefixes: `#`, `@`, `!`, `^` and two icon characters.
pub open spec fn channel_prefixes() -> Seq<char> {
    seq!['#', '@', '!', '^', '\u{f057e}', '\u{f0b79}']
}

/// Separators after a channel-name prefix: `-`, `|` and space.
pub open spec fn channel_separators() -> Seq<char> {
    seq!['-', '|', ' ']
}

/// A character that a sanitized name does not start with: a channel-name
/// prefix, a separator, or whitespace.
pub open spec fn is_marker(c: char) -> bool {
    c == '#' || c == '@' || c == '!' || c == '^' || c == '\u{f057e}' || c == '\u{f0b79}' || c == '-' || c == '|'
        || is_ws(c)
}

/// The marker predicate as a value.
pub open spec fn marker_pred() -> spec_fn(char) -> bool {
    |c: char| is_marker(c)
}

/// The cleaned name with prefixes and separators stripped until neither
/// starts it, and without surrounding whitespace.
pub open spec fn spec_sanitize_channel_name(s: Seq<char>) -> Seq<char> {
    trim(strip_start(spec_clean_text(s), marker_pred()))
}

fn is_marker_exec(c: char) -> (b: bool)
    ensures
        b == is_marker(c),
{
    c == '#' || c == '@' || c == '!' || c == '^' || c == '\u{f057e}' || c == '\u{f0b79}' || c == '-' || c == '|'
        || is_whitespace(c)
}

/// Removes prefixes and markers such as `#- -` from a channel name, until
/// none starts it.
pub fn sanitize_channel_name(name: &str) -> (r: String)
    ensures
        r@ == spec_sanitize_channel_name(name@),
{
    let cleaned = clean_text(name);
    let v = to_chars(cleaned.as_str());
    let mut i: usize = 0;
    assert(v@.skip(0) =~= v@);
    while i < v.len() && is_marker_exec(v[i])
        invariant
            i <= v.len(),
            strip_start(v@, marker_pred()) == strip_start(v@.skip(i as int), marker_pred()),
        decreases v.len() - i,
    {
        assert(v@.skip(i as int).drop_first() =~= v@.skip(i + 1));
        i = i + 1;
    }
    proof {
        if i < v.len() {
            assert(v@.skip(i as int)[0] == v@[i as int]);
        } else {
            assert(v@.skip(i as int) =~= Seq::<char>::empty());
        }
    }
    let rest = crate::text::sub_chars(&v, i, v.len());
    assert(rest@ =~= v@.skip(i as int));
    let c = trim_chars(&rest);
    from_chars(&c)
}

/// Stripping leaves a text that does not start with a stripped character.
proof fn lemma_strip_start_first(s: Seq<char>, p: spec_fn(char) -> bool)
    ensures
        strip_start(s, p).len() == 0 || !p(strip_start(s, p)[0]),
    decreases s.len(),
{
    if s.len() > 0 && p(s[0]) {
        lemma_strip_start_first(s.drop_first(), p);
    }
}

/// Stripping at the end leaves a text that does not end with a stripped
/// character, and keeps its first character.
proof fn lemma_strip_end_facts(s: Seq<char>, p: spec_fn(char) -> bool)
    ensures
        strip_end(s, p).len() == 0 || !p(strip_end(s, p).last()),
        strip_end(s, p).len() > 0 ==> strip_end(s, p)[0] == s[0],
    decreases s.len(),
{
    if s.len() > 0 && p(s.last()) {
        lemma_strip_end_facts(s.drop_last(), p);
        if strip_end(s.drop_last(), p).len() > 0 {
            assert(s.drop_last()[0] == s[0]);
        }
    }
}

/// A property of every character survives stripping at either end.
proof fn lemma_strip_keeps(s: Seq<char>, p: spec_fn(char) -> bool, q: spec_fn(char) -> bool)
    requires
        forall|i: int| 0 <= i < s.len() ==> q(#[trigger] s[i]),
    ensures
        forall|i: int| 0 <= i < strip_start(s, p).len() ==> q(#[trigger] strip_start(s, p)[i]),
        forall|i: int| 0 <= i < strip_end(s, p).len() ==> q(#[trigger] strip_end(s, p)[i]),
    decreases s.len(),
{
    if s.len() > 0 {
        let t = s.drop_first();
        assert forall|i: int| 0 <= i < t.len() implies q(#[trigger] t[i]) by {
            assert(t[i] == s[i + 1]);
        }
        let u = s.drop_last();
        assert forall|i: int| 0 <= i < u.len() implies q(#[trigger] u[i]) by {
            assert(u[i] == s[i]);
        }
        lemma_strip_keeps(t, p, q);
        lemma_strip_keeps(u, p, q);
        if p(s[0]) {
            assert(strip_start(s, p) == strip_start(t, p));
        } else {
            assert(strip_start(s, p) == s);
        }
        if p(s.last()) {
            assert(strip_end(s, p) == strip_end(u, p));
        } else {
            assert(strip_end(s, p) == s);
        }
    } else {
        assert(strip_start(s, p) == s);
        assert(strip_end(s, p) == s);
    }
}

/// Filtering out characters that do not occur leaves a text unchanged.
proof fn lemma_filter_none(s: Seq<char>)
    requires
        forall|i: int| 0 <= i < s.len() ==> !emoji_char(#[trigger] s[i]),
    ensures
        remove_emoji(s) == s,
    decreases s.len(),
{
    reveal(Seq::filter);
    if s.len() > 0 {
        let t = s.drop_last();
        assert forall|i: int| 0 <= i < t.len() implies !emoji_char(#[trigger] t[i]) by {
            assert(t[i] == s[i]);
        }
        lemma_filter_none(t);
        assert(s.filter(|c: char| !emoji_char(c)) =~= t.filter(|c: char| !emoji_char(c)).push(s.last()));
        assert(t.push(s.last()) =~= s);
    }
}

/// A text that starts with no marker and ends with no whitespace is left
/// as it is by every step of the sanitizing.
proof fn lemma_fixed_point(y: Seq<char>)
    requires
        forall|i: int| 0 <= i < y.len() ==> !emoji_char(#[trigger] y[i]),
        y.len() == 0 || !is_marker(y[0]),
        y.len() == 0 || !is_ws(y.last()),
    ensures
        spec_sanitize_channel_name(y) == y,
{
    lemma_filter_none(y);
    assert(strip_start(y, ws_pred()) == y);
    assert(strip_end(y, ws_pred()) == y);
    assert(trim(y) == y);
    if y.len() > 0 {
        assert(!dash_bar().contains(y[0])) by {
            if dash_bar().contains(y[0]) {
                let k = choose|k: int| 0 <= k < dash_bar().len() && dash_bar()[k] == y[0];
                assert(k == 0 || k == 1);
            }
        }
    }
    assert(strip_start(y, in_set(dash_bar())) == y);
    assert(spec_clean_text(y) == y);
    assert(strip_start(y, marker_pred()) == y);
}

/// Sanitizing a sanitized name changes nothing: no prefix, separator or
/// surrounding whitespace is left for a second pass to strip.
pub proof fn lemma_sanitize_idempotent(s: Seq<char>)
    ensures
        spec_sanitize_channel_name(spec_sanitize_channel_name(s)) == spec_sanitize_channel_name(s),
{
    let f = remove_emoji(s);
    let q = |c: char| !emoji_char(c);
    assert forall|i: int| 0 <= i < f.len() implies q(#[trigger] f[i]) by {
        s.filter_lemma(q);
        assert(f.contains(f[i]));
    }
    let a = strip_start(f, ws_pred());
    lemma_strip_keeps(f, ws_pred(), q);
    let b = strip_end(a, ws_pred());
    lemma_strip_keeps(a, ws_pred(), q);
    let c = strip_start(b, in_set(dash_bar()));
    lemma_strip_keeps(b, in_set(dash_bar()), q);
    let d = strip_start(c, ws_pred());
    lemma_strip_keeps(c, ws_pred(), q);
    let e = strip_end(d, ws_pred());
    lemma_strip_keeps(d, ws_pred(), q);
    assert(e == spec_clean_text(s));
    let g = strip_start(e, marker_pred());
    lemma_strip_keeps(e, marker_pred(), q);
    lemma_strip_start_first(e, marker_pred());
    let h = strip_start(g, ws_pred());
    lemma_strip_keeps(g, ws_pred(), q);
    if g.len() > 0 {
        assert(!is_ws(g[0]));
    }
    assert(h == g);
    let y = strip_end(h, ws_pred());
    lemma_strip_keeps(h, ws_pred(), q);
    lemma_strip_end_facts(h, ws_pred());
    assert(y == spec_sanitize_channel_name(s));
    assert forall|i: int| 0 <= i < y.len() implies !emoji_char(#[trigger] y[i]) by {
        assert(q(y[i]));
    }
    lemma_fixed_point(y);
}

/// The state of the command-line splitter: the arguments so far, the
/// argument being read, and whether a double quote, a single quote or a
/// backslash is open.
pub struct SplitState {
    pub args: Seq<Seq<char>>,
    pub current: Seq<char>,
    pub in_double: bool,
    pub in_single: bool,
    pub escaped: bool,
}

/// The splitter after one more character: an escaped character is taken as
/// is; a backslash escapes the next one; a double quote outside single quotes
/// and a single quote outside double quotes toggle their quoting; whitespace
/// outside quotes ends a non-empty argument; anything else is part of the argument.
pub open spec fn split_step(st: SplitState, c: char) -> SplitState {
    if st.escaped {
        SplitState { current: st.current.push(c), escaped: false, ..st }
    } else if c == '\\' {
        SplitState { escaped: true, ..st }
    } else if c == '"' && !st.in_single {
        SplitState { in_double: !st.in_double, ..st }
    } else if c == '\'' && !st.in_double {
        SplitState { in_single: !st.in_single, ..st }
    } else if is_ws(c) && !st.in_double && !st.in_single {
        if st.current.len() > 0 {
            SplitState { args: st.args.push(st.current), current: Seq::empty(), ..st }
        } else {
            st
        }
    } else {
        SplitState { current: st.current.push(c), ..st }
    }
}

/// The splitter after reading `s`.
pub open spec fn split_run(s: Seq<char>) -> SplitState
    decreases s.len(),
{
    if s.len() == 0 {
        SplitState { args: Seq::empty(), current: Seq::empty(), in_double: false, in_single: false, escaped: false }
    } else {
        split_step(split_run(s.drop_last()), s.last())
    }
}

/// The arguments of a command line, shell-like: whitespace separates
/// arguments except inside quotes, and a backslash escapes one character.
pub open spec fn spec_split_command(s: Seq<char>) -> Seq<Seq<char>> {
    let st = split_run(s);
    if st.current.len() > 0 {
        st.args.push(st.current)
    } else {
        st.args
    }
}

proof fn lemma_split_args_nonempty(s: Seq<char>)
    ensures
        forall|i: int| 0 <= i < split_run(s).args.len() ==> (#[trigger] split_run(s).args[i]).len() > 0,
    decreases s.len(),
{
    if s.len() > 0 {
        lemma_split_args_nonempty(s.drop_last());
        let st = split_run(s.drop_last());
        let c = s.last();
        let nx = split_step(st, c);
        assert(split_run(s) == nx);
        assert forall|i: int| 0 <= i < nx.args.len() implies (#[trigger] nx.args[i]).len() > 0 by {
            if i < st.args.len() && nx.args.len() > 0 {
                assert(nx.args[i] == st.args[i]);
            }
        }
    }
}

/// No argument of a split command line is empty.
pub proof fn lemma_split_command_no_empty_args(s: Seq<char>)
    ensures
        forall|i: int| 0 <= i < spec_split_command(s).len() ==> (#[trigger] spec_split_command(s)[i]).len() > 0,
{
    lemma_split_args_nonempty(s);
}

/// Plain whitespace splitting, read left to right: the words found so far
/// and the word being read.
pub open spec fn ws_run(s: Seq<char>) -> (Seq<Seq<char>>, Seq<char>)
    decreases s.len(),
{
    if s.len() == 0 {
        (Seq::empty(), Seq::empty())
    } else {
        let (words, cur) = ws_run(s.drop_last());
        let c = s.last();
        if is_ws(c) {
            if cur.len() > 0 {
                (words.push(cur), Seq::empty())
            } else {
                (words, cur)
            }
        } else {
            (words, cur.push(c))
        }
    }
}

/// The maximal runs of non-whitespace characters of `s`, in order.
pub open spec fn spec_split_whitespace(s: Seq<char>) -> Seq<Seq<char>> {
    let (words, cur) = ws_run(s);
    if cur.len() > 0 {
        words.push(cur)
    } else {
        words
    }
}

/// Whether `s` holds no quote and no backslash.
pub open spec fn no_quoting(s: Seq<char>) -> bool {
    forall|i: int| #![trigger s[i]] 0 <= i < s.len() ==> s[i] != '"' && s[i] != '\'' && s[i] != '\\'
}

proof fn lemma_split_run_plain(s: Seq<char>)
    requires
        no_quoting(s),
    ensures
        split_run(s) == (SplitState {
            args: ws_run(s).0,
            current: ws_run(s).1,
            in_double: false,
            in_single: false,
            escaped: false,
        }),
    decreases s.len(),
{
    if s.len() > 0 {
        let t = s.drop_last();
        assert forall|i: int| #![trigger t[i]] 0 <= i < t.len() implies t[i] != '"' && t[i] != '\''
            && t[i] != '\\' by {
            assert(t[i] == s[i]);
        }
        lemma_split_run_plain(t);
        assert(s.last() == s[s.len() - 1]);
    }
}

/// Without quotes or backslashes, splitting a command line is plain
/// whitespace splitting.
pub proof fn lemma_split_command_plain(s: Seq<char>)
    requires
        no_quoting(s),
    ensures
        spec_split_command(s) == spec_split_whitespace(s),
{
    lemma_split_run_plain(s);
}

/// Splits a command string into arguments, with quoting and escaping.
pub fn split_command(s: &str) -> (args: Vec<String>)
    ensures
        args@.map_values(|a: String| a@) == spec_split_command(s@),
{
    let v = to_chars(s);
    let mut args: Vec<String> = Vec::new();
    let mut current: Vec<char> = Vec::new();
    let mut in_double = false;
    let mut in_single = false;
    let mut escaped = false;
    let mut i: usize = 0;
    assert(v@.take(0) =~= Seq::<char>::empty());
    assert(args@.map_values(|a: String| a@) =~= Seq::<Seq<char>>::empty());
    assert(current@ =~= Seq::<char>::empty());
    while i < v.len()
        invariant
            i <= v.len(),
            split_run(v@.take(i as int)) == (SplitState {
                args: args@.map_values(|a: String| a@),
                current: current@,
                in_double,
                in_single,
                escaped,
            }),
        decreases v.len() - i,
    {
        let c = v[i];
        proof {
            assert(v@.take(i + 1).drop_last() =~= v@.take(i as int));
            assert(v@.take(i + 1).last() == c);
        }
        if escaped {
            current.push(c);
            escaped = false;
        } else if c == '\\' {
            escaped = true;
        } else if c == '"' && !in_single {
            in_double = !in_double;
        } else if c == '\'' && !in_double {
            in_single = !in_single;
        } else if is_whitespace(c) && !in_double && !in_single {
            if current.len() > 0 {
                let arg = from_chars(&current);
                let ghost before = args@.map_values(|a: String| a@);
                args.push(arg);
                assert(args@.map_values(|a: String| a@) =~= before.push(current@));
                current = Vec::new();
            }
        } else {
            current.push(c);
        }
        i = i + 1;
    }
    assert(v@.take(v.len() as int) =~= v@);
    if current.len() > 0 {
        let arg = from_chars(&current);
        let ghost before = args@.map_values(|a: String| a@);
        args.push(arg);
        assert(args@.map_values(|a: String| a@) =~= before.push(current@));
    }
    args
}

/// The decimal digit character of a value below ten.
pub open spec fn digit_char(d: nat) -> char {
    ((d + 48) as u32) as char
}

/// The decimal representation of a natural number, without leading zeros.
pub open spec fn decimal(n: nat) -> Seq<char>
    decreases n,
{
    if n < 10 {
        seq![digit_char(n)]
    } else {
        decimal(n / 10).push(digit_char(n % 10))
    }
}

fn decimal_chars(n: u64) -> (v: Vec<char>)
    ensures
        v@ == decimal(n as nat),
    decreases n,
{
    let d = (n % 10) as u32 + 48;
    let c = char_of_digit(d);
    if n < 10 {
        let mut v: Vec<char> = Vec::new();
        v.push(c);
        assert(v@ =~= seq![digit_char(n as nat)]);
        v
    } else {
        let mut v = decimal_chars(n / 10);
        v.push(c);
        v
    }
}

fn char_of_digit(d: u32) -> (c: char)
    requires
        48 <= d < 58,
    ensures
        c == d as char,
{
    (d as u8) as char
}

/// The decimal representation of a number (`u64::to_string`).
pub fn u64_to_decimal(n: u64) -> (s: String)
    ensures
        s@ == decimal(n as nat),
{
    let v = decimal_chars(n);
    from_chars(&v)
}


/// The colors given to users without a color of their own.
pub open spec fn user_palette() -> Seq<Color> {
    seq![
        Color::Red,
        Color::Green,
        Color::Yellow,
        Color::Magenta,
        Color::Cyan,
        Color::LightRed,
        Color::LightGreen,
        Color::LightYellow,
        Color::LightBlue,
        Color::LightMagenta,
        Color::LightCyan,
    ]
}

/// The palette color of a user id: the id modulo the palette's size.
pub fn hash_id_to_color(id: u64) -> (c: Color)
    ensures
        c == user_palette()[(id % 11) as int],
{
    let i = id % 11;
    if i == 0 {
        Color::Red
    } else if i == 1 {
        Color::Green
    } else if i == 2 {
        Color::Yellow
    } else if i == 3 {
        Color::Magenta
    } else if i == 4 {
        Color::Cyan
    } else if i == 5 {
        Color::LightRed
    } else if i == 6 {
        Color::LightGreen
    } else if i == 7 {
        Color::LightYellow
    } else if i == 8 {
        Color::LightBlue
    } else if i == 9 {
        Color::LightMagenta
    } else {
        Color::LightCyan
    }
}

/// The color of a `0xRRGGBB` number.
pub fn u32_to_color(color: u32) -> (c: Color)
    ensures
        c == Color::Rgb((color / 65536 % 256) as u8, (color / 256 % 256) as u8, (color % 256) as u8),
{
    let r = (color >> 16u32) & 0xffu32;
    let g = (color >> 8u32) & 0xffu32;
    let b = color & 0xffu32;
    assert(r == color / 65536 % 256) by (bit_vector)
        requires
            r == (color >> 16u32) & 0xffu32,
    ;
    assert(g == color / 256 % 256) by (bit_vector)
        requires
            g == (color >> 8u32) & 0xffu32,
    ;
    assert(b == color % 256) by (bit_vector)
        requires
            b == color & 0xffu32,
    ;
    Color::Rgb(r as u8, g as u8, b as u8)
}

/// Whether a text reads as hours and minutes: two digits, `:`, two digits.
pub open spec fn is_hh_mm(s: Seq<char>) -> bool {
    &&& s.len() == 5
    &&& s[2] == ':'
    &&& forall|i: int| 0 <= i < 5 && i != 2 ==> '0' <= #[trigger] s[i] <= '9'
}

/// Whether `chrono::DateTime::parse_from_rfc3339` accepts a text.
pub uninterp spec fn rfc3339_parses(s: Seq<char>) -> bool;

/// Whether `str::parse` into `chrono::DateTime<chrono::Utc>` accepts a text.
pub uninterp spec fn utc_parses(s: Seq<char>) -> bool;

/// The time of day of an RFC 3339 date and time in the machine's time zone
/// (`chrono::DateTime::parse_from_rfc3339`, then `chrono::Local` and the
/// format `%H:%M`); none when the text does not parse. The time zone is the
/// machine's, so only the form of the result is stated.
#[verifier::external_body]
fn local_time_of_rfc3339(iso: &str) -> (r: Option<String>)
    ensures
        r is Some <==> rfc3339_parses(iso@),
        r matches Some(s) ==> is_hh_mm(s@),
{
    match chrono::DateTime::parse_from_rfc3339(iso) {
        Ok(dt) => {
            let local: chrono::DateTime<chrono::Local> = dt.into();
            Some(local.format("%H:%M").to_string())
        },
        Err(_) => None,
    }
}

/// The time of day of a UTC date and time in the machine's time zone
/// (`str::parse` into `chrono::DateTime<chrono::Utc>`, then `chrono::Local`
/// and the format `%H:%M`); none when the text does not parse. Only the form
/// of the result is stated.
#[verifier::external_body]
fn local_time_of_utc(iso: &str) -> (r: Option<String>)
    ensures
        r is Some <==> utc_parses(iso@),
        r matches Some(s) ==> is_hh_mm(s@),
{
    match iso.parse::<chrono::DateTime<chrono::Utc>>() {
        Ok(dt) => {
            let local: chrono::DateTime<chrono::Local> = dt.into();
            Some(local.format("%H:%M").to_string())
        },
        Err(_) => None,
    }
}

/// The shortest prefix of `s` that is `n` bytes long in UTF-8, if a
/// character boundary falls there.
pub open spec fn bytes_prefix(s: Seq<char>, n: nat) -> Option<Seq<char>> {
    if exists|k: int| 0 <= k <= s.len() && #[trigger] byte_len(s.take(k)) == n {
        Some(s.take(choose|k: int| 0 <= k <= s.len() && #[trigger] byte_len(s.take(k)) == n
            && forall|m: int| 0 <= m < k ==> #[trigger] byte_len(s.take(m)) != n))
    } else {
        None
    }
}

/// A prefix found by byte count is a prefix of the text.
pub proof fn lemma_bytes_prefix_is_prefix(s: Seq<char>, n: nat)
    ensures
        bytes_prefix(s, n) matches Some(p) ==> p.len() <= s.len() && p == s.take(p.len() as int),
{
    if bytes_prefix(s, n) is Some {
        let k0 = choose|k: int| 0 <= k <= s.len() && #[trigger] byte_len(s.take(k)) == n;
        lemma_minimal_prefix(s, n, k0);
        let k = choose|k: int| 0 <= k <= s.len() && #[trigger] byte_len(s.take(k)) == n
            && forall|m: int| 0 <= m < k ==> #[trigger] byte_len(s.take(m)) != n;
        assert(bytes_prefix(s, n) == Some(s.take(k)));
        let p = s.take(k);
        assert(p.len() == k);
        assert(p =~= s.take(p.len() as int));
    }
}

proof fn lemma_minimal_prefix(s: Seq<char>, n: nat, k: int)
    requires
        0 <= k <= s.len(),
        byte_len(s.take(k)) == n,
    ensures
        exists|c: int| 0 <= c <= s.len() && #[trigger] byte_len(s.take(c)) == n
            && forall|m: int| 0 <= m < c ==> #[trigger] byte_len(s.take(m)) != n,
    decreases k,
{
    if exists|m: int| 0 <= m < k && #[trigger] byte_len(s.take(m)) == n {
        let m = choose|m: int| 0 <= m < k && #[trigger] byte_len(s.take(m)) == n;
        lemma_minimal_prefix(s, n, m);
    } else {
        assert(0 <= k <= s.len() && byte_len(s.take(k)) == n && forall|m: int| 0 <= m < k ==> #[trigger] byte_len(s.take(m)) != n);
    }
}

/// Whether a timestamp that does not parse falls back to the text between
/// its first and second `T`: the text is at least sixteen bytes long, holds
/// a `T`, and that part is at least five bytes long.
pub open spec fn takes_time_part(s: Seq<char>) -> bool {
    let parts = split_on(s, 'T');
    byte_len(s) >= 16 && parts.len() > 1 && byte_len(parts[1]) >= 5
}

/// The text of a timestamp that does not parse: the first five bytes of the
/// part after the first `T` when `takes_time_part` holds, otherwise the
/// first ten characters.
pub open spec fn spec_timestamp_fallback(s: Seq<char>) -> Seq<char> {
    if takes_time_part(s) {
        match bytes_prefix(split_on(s, 'T')[1], 5) {
            Some(p) => p,
            None => Seq::empty(),
        }
    } else if s.len() <= 10 {
        s
    } else {
        s.take(10)
    }
}

/// Whether the fallback can cut the time part at five bytes: a character
/// boundary falls there.
pub open spec fn fallback_defined(s: Seq<char>) -> bool {
    takes_time_part(s) ==> bytes_prefix(split_on(s, 'T')[1], 5) is Some
}

pub proof fn lemma_byte_len_concat(a: Seq<char>, b: Seq<char>)
    ensures
        byte_len(a + b) == byte_len(a) + byte_len(b),
    decreases a.len(),
{
    if a.len() > 0 {
        lemma_byte_len_concat(a.drop_first(), b);
        assert((a + b)[0] == a[0]);
        assert((a + b).drop_first() =~= a.drop_first() + b);
    } else {
        assert(a + b =~= b);
    }
}

pub proof fn lemma_byte_len_push(s: Seq<char>, c: char)
    ensures
        byte_len(s.push(c)) == byte_len(s) + encode_scalar(c as u32).len(),
{
    lemma_byte_len_concat(s, seq![c]);
    assert(s.push(c) =~= s + seq![c]);
    assert(seq![c].drop_first() =~= Seq::<char>::empty());
    assert(seq![c][0] == c);
    assert(encode_utf8(Seq::<char>::empty()) =~= Seq::<u8>::empty());
    assert(encode_utf8(seq![c]) =~= encode_scalar(c as u32) + encode_utf8(Seq::<char>::empty()));
}

pub proof fn lemma_byte_len_prefix(s: Seq<char>, k: int)
    requires
        0 <= k <= s.len(),
    ensures
        byte_len(s.take(k)) <= byte_len(s),
{
    lemma_byte_len_concat(s.take(k), s.skip(k));
    assert(s.take(k) + s.skip(k) =~= s);
}

pub(crate) fn char_utf8_len(c: char) -> (n: usize)
    ensures
        n == encode_scalar(c as u32).len(),
        1 <= n <= 4,
{
    let u = c as u32;
    if u < 0x80 {
        1
    } else if u < 0x800 {
        2
    } else if u < 0x10000 {
        3
    } else {
        4
    }
}

/// The length of a text in UTF-8 bytes.
pub(crate) fn utf8_len(v: &Vec<char>) -> (n: u128)
    ensures
        n == byte_len(v@),
        n <= 4 * v@.len(),
{
    let mut w: u128 = 0;
    let mut k: usize = 0;
    assert(v@.take(0) =~= Seq::<char>::empty());
    while k < v.len()
        invariant
            k <= v@.len(),
            w == byte_len(v@.take(k as int)),
            w <= 4 * k,
        decreases v@.len() - k,
    {
        let cl = char_utf8_len(v[k]);
        proof {
            lemma_byte_len_push(v@.take(k as int), v@[k as int]);
            assert(v@.take(k as int).push(v@[k as int]) =~= v@.take(k + 1));
        }
        w = w + cl as u128;
        k = k + 1;
    }
    assert(v@.take(k as int) =~= v@);
    w
}

/// Whether a text is at least `n` bytes long in UTF-8.
fn bytes_at_least(v: &Vec<char>, n: usize) -> (b: bool)
    ensures
        b == (byte_len(v@) >= n),
{
    utf8_len(v) >= n as u128
}

/// The prefix of a text that is exactly `n` bytes long in UTF-8, if a
/// character boundary falls there.
pub(crate) fn first_bytes(v: &Vec<char>, n: usize) -> (r: Option<Vec<char>>)
    ensures
        match r {
            Some(p) => bytes_prefix(v@, n as nat) == Some(p@),
            None => bytes_prefix(v@, n as nat) is None,
        },
{
    let mut w: u128 = 0;
    let mut k: usize = 0;
    assert(v@.take(0) =~= Seq::<char>::empty());
    while k <= v.len()
        invariant
            k <= v@.len() + 1,
            k <= v@.len() ==> w == byte_len(v@.take(k as int)),
            w <= 4 * k,
            forall|m: int| 0 <= m < k ==> #[trigger] byte_len(v@.take(m)) != n,
            forall|m: int| 0 <= m < k ==> #[trigger] byte_len(v@.take(m)) < n,
        decreases v@.len() + 1 - k,
    {
        if w == n as u128 {
            proof {
                let c = choose|c: int| 0 <= c <= v@.len() && #[trigger] byte_len(v@.take(c)) == n
                    && forall|m: int| 0 <= m < c ==> #[trigger] byte_len(v@.take(m)) != n;
                assert(0 <= k <= v@.len() && byte_len(v@.take(k as int)) == n && forall|m: int| 0 <= m < k ==> #[trigger] byte_len(v@.take(m)) != n);
                if c < k {
                    assert(byte_len(v@.take(c)) != n);
                }
                if c > k {
                    assert(byte_len(v@.take(k as int)) != n);
                }
            }
            let p = crate::text::sub_chars(v, 0, k);
            assert(p@ =~= v@.take(k as int));
            return Some(p);
        }
        if w > n as u128 || k == v.len() {
            proof {
                assert forall|m: int| 0 <= m <= v@.len() implies #[trigger] byte_len(v@.take(m)) != n by {
                    if m > k {
                        lemma_byte_len_prefix(v@.take(m), k as int);
                        assert(v@.take(m).take(k as int) =~= v@.take(k as int));
                    }
                }
            }
            return None;
        }
        let cl = char_utf8_len(v[k]);
        proof {
            lemma_byte_len_push(v@.take(k as int), v@[k as int]);
            assert(v@.take(k as int).push(v@[k as int]) =~= v@.take(k + 1));
        }
        w = w + cl as u128;
        k = k + 1;
    }
    None
}

/// The text of a timestamp that does not parse.
pub fn timestamp_fallback(iso: &str) -> (r: String)
    requires
        fallback_defined(iso@),
    ensures
        r@ == spec_timestamp_fallback(iso@),
{
    let v = to_chars(iso);
    let parts = split_chars(&v, 'T');
    if bytes_at_least(&v, 16) && parts.len() > 1 && bytes_at_least(&parts[1], 5) {
        match first_bytes(&parts[1], 5) {
            Some(p) => from_chars(&p),
            None => String::new(),
        }
    } else if v.len() <= 10 {
        from_chars(&v)
    } else {
        from_chars(&crate::text::sub_chars(&v, 0, 10))
    }
}

/// The displayed time of a message: the first time of day given, else the
/// text of the timestamp that does not parse.
pub fn choose_timestamp(rfc3339: Option<String>, utc: Option<String>, iso: &str) -> (r: String)
    requires
        fallback_defined(iso@),
    ensures
        r@ == match rfc3339 {
            Some(s) => s@,
            None => match utc {
                Some(s) => s@,
                None => spec_timestamp_fallback(iso@),
            },
        },
{
    match rfc3339 {
        Some(s) => s,
        None => match utc {
            Some(s) => s,
            None => timestamp_fallback(iso),
        },
    }
}

/// Formats a timestamp as the local time of day, `HH:MM`, when it parses as
/// RFC 3339 or as a UTC date and time; otherwise as its fallback text.
pub fn format_iso_timestamp(iso: &str) -> (r: String)
    requires
        fallback_defined(iso@),
    ensures
        (rfc3339_parses(iso@) || utc_parses(iso@)) ==> is_hh_mm(r@),
        !(rfc3339_parses(iso@) || utc_parses(iso@)) ==> r@ == spec_timestamp_fallback(iso@),
{
    let a = local_time_of_rfc3339(iso);
    let b = match &a {
        Some(_) => None,
        None => local_time_of_utc(iso),
    };
    choose_timestamp(a, b, iso)
}

/// `u64::from_str`: an optional `+`, then one or more decimal digits whose
/// value fits in 64 bits.
pub open spec fn parse_u64(s: Seq<char>) -> Option<u64> {
    parse_u64_digits(if s.len() > 0 && s[0] == '+' { s.drop_first() } else { s })
}

/// Digits only: one or more decimal digits whose value fits in 64 bits.
pub open spec fn parse_u64_digits(d: Seq<char>) -> Option<u64> {
    if d.len() == 0 || !(forall|i: int| 0 <= i < d.len() ==> is_digit(#[trigger] d[i])) || decimal_value(d) > u64::MAX {
        None
    } else {
        Some(decimal_value(d) as u64)
    }
}

/// Parses a decimal `u64` as `str::parse` does.
pub fn parse_u64_str(s: &str) -> (r: Option<u64>)
    ensures
        r == parse_u64(s@),
{
    let v = to_chars(s);
    let ghost sv = v@;
    let mut start: usize = 0;
    if v.len() > 0 && v[0] == '+' {
        start = 1;
    }
    let ghost d = sv.skip(start as int);
    assert(d =~= (if sv.len() > 0 && sv[0] == '+' { sv.drop_first() } else { sv }));
    if start == v.len() {
        assert(d.len() == 0);
        return None;
    }
    let cap: u128 = 0x1_0000_0000_0000_0000;
    let mut acc: u128 = 0;
    let mut i = start;
    assert(sv.subrange(start as int, start as int) =~= Seq::<char>::empty());
    while i < v.len()
        invariant
            start <= i <= v.len(),
            sv == v@,
            sv == s@,
            d == sv.skip(start as int),
            d == (if sv.len() > 0 && sv[0] == '+' { sv.drop_first() } else { sv }),
            cap == 0x1_0000_0000_0000_0000u128,
            forall|j: int| start <= j < i ==> is_digit(#[trigger] sv[j]),
            acc <= cap,
            acc == (if decimal_value(sv.subrange(start as int, i as int)) > u64::MAX { cap as int } else {
                decimal_value(sv.subrange(start as int, i as int)) as int
            }),
        decreases v.len() - i,
    {
        let c = v[i];
        if !('0' <= c && c <= '9') {
            assert(d[i - start] == c);
            assert((i - start) < d.len());
            assert(!is_digit(d[i - start]));
            assert(!(forall|j: int| 0 <= j < d.len() ==> is_digit(#[trigger] d[j])));
            assert(parse_u64(sv) is None);
            return None;
        }
        let dv: u128 = ((c as u32) - ('0' as u32)) as u128;
        proof {
            let pre = sv.subrange(start as int, i as int);
            let post = sv.subrange(start as int, i + 1);
            assert(post.drop_last() =~= pre);
            assert(post.last() == c);
            assert(decimal_value(post) == decimal_value(pre) * 10 + dv);
        }
        if acc >= cap {
            acc = cap;
        } else {
            let n = acc * 10 + dv;
            acc = if n >= cap {
                cap
            } else {
                n
            };
        }
        i = i + 1;
    }
    assert(sv.subrange(start as int, v.len() as int) =~= d);
    if acc >= cap {
        None
    } else {
        Some(acc as u64)
    }
}

/// The color of a message author: their own color if they have one, else
/// the palette color of their id, or of 0 when the id is not a number.
pub fn get_author_color(color: Option<u32>, id: &str) -> (c: Color)
    ensures
        c == match color {
            Some(v) => Color::Rgb((v / 65536 % 256) as u8, (v / 256 % 256) as u8, (v % 256) as u8),
            None => user_palette()[((match parse_u64(id@) {
                Some(n) => n,
                None => 0,
            }) % 11) as int],
        },
{
    match color {
        Some(v) => u32_to_color(v),
        None => {
            let n = match parse_u64_str(id) {
                Some(n) => n,
                None => 0,
            };
            hash_id_to_color(n)
        },
    }
}

/// The color of a user: their own color if they have one, else the palette
/// color of their id.
pub fn get_user_color(color: Option<u32>, id: u64) -> (c: Color)
    ensures
        c == match color {
            Some(v) => Color::Rgb((v / 65536 % 256) as u8, (v / 256 % 256) as u8, (v % 256) as u8),
            None => user_palette()[(id % 11) as int],
        },
{
    match color {
        Some(v) => u32_to_color(v),
        None => hash_id_to_color(id),
    }
}

} // verus!
