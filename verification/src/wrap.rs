//! Fitting plain text into terminal columns: truncation with an ellipsis and
//! greedy word wrapping, as the message pane draws titles and embeds.

use vstd::prelude::*;
use crate::chars::{from_chars, to_chars};
use crate::text::{lemma_split_on_nonempty, split_chars, split_on, sub_chars};
use crate::text_area::rows_of;
use crate::theme::Color;
use crate::utils::u32_to_color;
use crate::width::{str_width, str_width_exec};

verus! {

/// The width of one character drawn on its own.
pub open spec fn glyph_width(c: char) -> int {
    str_width(seq![c]) as int
}

/// How many characters from the start of `s` fit in `budget` columns when
/// they are taken one by one until the first that does not fit.
pub open spec fn fit_count(s: Seq<char>, budget: int) -> nat
    decreases s.len(),
{
    if s.len() == 0 || glyph_width(s[0]) > budget {
        0
    } else {
        1 + fit_count(s.drop_first(), budget - glyph_width(s[0]))
    }
}

proof fn lemma_fit_count_bound(s: Seq<char>, budget: int)
    ensures
        fit_count(s, budget) <= s.len(),
    decreases s.len(),
{
    if s.len() > 0 && glyph_width(s[0]) <= budget {
        lemma_fit_count_bound(s.drop_first(), budget - glyph_width(s[0]));
    }
}

/// The width of a character drawn on its own.
fn glyph_width_exec(c: char) -> (w: usize)
    ensures
        w == glyph_width(c),
{
    let mut v: Vec<char> = Vec::new();
    v.push(c);
    assert(v@ =~= seq![c]);
    let s = from_chars(&v);
    str_width_exec(s.as_str())
}

/// How many characters of `v` from `start` on fit in `budget` columns.
fn fit_from(v: &Vec<char>, start: usize, budget: usize) -> (k: usize)
    requires
        start <= v.len(),
    ensures
        k == fit_count(v@.subrange(start as int, v.len() as int), budget as int),
        start + k <= v.len(),
{
    let mut i = start;
    let mut used: usize = 0;
    loop
        invariant
            start <= i <= v.len(),
            used <= budget,
            fit_count(v@.subrange(start as int, v.len() as int), budget as int) == (i - start) + fit_count(
                v@.subrange(i as int, v.len() as int),
                budget - used,
            ),
        ensures
            start <= i <= v.len(),
            fit_count(v@.subrange(start as int, v.len() as int), budget as int) == i - start,
        decreases v.len() - i,
    {
        let ghost rest = v@.subrange(i as int, v.len() as int);
        if i == v.len() {
            break;
        }
        assert(rest[0] == v@[i as int]);
        let w = glyph_width_exec(v[i]);
        if w > budget - used {
            break;
        }
        assert(rest.drop_first() =~= v@.subrange(i + 1, v.len() as int));
        used = used + w;
        i = i + 1;
    }
    i - start
}

/// The text cut to `max_len` columns: unchanged when it fits; otherwise the
/// characters that fit in `max_len - 3` columns followed by "...", or, when
/// `max_len` is under 3, only the characters that fit.
pub open spec fn spec_truncate_string(s: Seq<char>, max_len: int) -> Seq<char> {
    if str_width(s) <= max_len {
        s
    } else if max_len < 3 {
        s.take(fit_count(s, max_len) as int)
    } else {
        s.take(fit_count(s, max_len - 3) as int) + seq!['.', '.', '.']
    }
}

/// Cuts a text to `max_len` columns, ending it with "..." where it was cut
/// and there is room.
pub fn truncate_string(s: &str, max_len: usize) -> (r: String)
    ensures
        r@ == spec_truncate_string(s@, max_len as int),
{
    let v = to_chars(s);
    assert(v@.subrange(0, v.len() as int) =~= v@);
    if str_width_exec(s) <= max_len {
        return from_chars(&v);
    }
    if max_len < 3 {
        let k = fit_from(&v, 0, max_len);
        let cut = sub_chars(&v, 0, k);
        assert(cut@ =~= v@.take(k as int));
        return from_chars(&cut);
    }
    let k = fit_from(&v, 0, max_len - 3);
    let mut cut = sub_chars(&v, 0, k);
    cut.push('.');
    cut.push('.');
    cut.push('.');
    assert(cut@ =~= v@.take(k as int) + seq!['.', '.', '.']);
    from_chars(&cut)
}

/// A line without the carriage return that ended it before its newline.
pub open spec fn strip_cr(p: Seq<char>) -> Seq<char> {
    if p.len() > 0 && p.last() == '\r' {
        p.drop_last()
    } else {
        p
    }
}

/// `str::lines`: the pieces between newlines, those that a newline ends
/// without a carriage return before it, and no empty piece after a final
/// newline.
pub open spec fn spec_str_lines(s: Seq<char>) -> Seq<Seq<char>> {
    let pieces = split_on(s, '\n');
    let body = pieces.take(pieces.len() - 1).map_values(|p: Seq<char>| strip_cr(p));
    if pieces.last().len() == 0 {
        body
    } else {
        body.push(pieces.last())
    }
}

fn strip_cr_exec(p: &Vec<char>) -> (r: Vec<char>)
    ensures
        r@ == strip_cr(p@),
{
    let n = p.len();
    if n > 0 && p[n - 1] == '\r' {
        let r = sub_chars(p, 0, n - 1);
        assert(r@ =~= p@.drop_last());
        r
    } else {
        let r = sub_chars(p, 0, n);
        assert(r@ =~= p@);
        r
    }
}

/// The lines of a text, split as `str::lines` splits them.
pub fn str_lines(v: &Vec<char>) -> (r: Vec<Vec<char>>)
    ensures
        rows_of(r@) == spec_str_lines(v@),
{
    let parts = split_chars(v, '\n');
    proof {
        lemma_split_on_nonempty(v@, '\n');
    }
    let ghost pieces = split_on(v@, '\n');
    let n = parts.len();
    let mut r: Vec<Vec<char>> = Vec::new();
    let mut i: usize = 0;
    assert(pieces.take(0).map_values(|p: Seq<char>| strip_cr(p)) =~= rows_of(r@));
    while i + 1 < n
        invariant
            1 <= n == parts@.len() == pieces.len(),
            pieces == split_on(v@, '\n'),
            i + 1 <= n,
            forall|k: int| 0 <= k < parts@.len() ==> #[trigger] parts@[k]@ == pieces[k],
            rows_of(r@) == pieces.take(i as int).map_values(|p: Seq<char>| strip_cr(p)),
        decreases n - i,
    {
        let line = strip_cr_exec(&parts[i]);
        let ghost before = r@;
        r.push(line);
        assert(rows_of(r@) =~= rows_of(before).push(line@));
        assert(pieces.take(i + 1).map_values(|p: Seq<char>| strip_cr(p)) =~= pieces.take(i as int).map_values(
            |p: Seq<char>| strip_cr(p),
        ).push(strip_cr(pieces[i as int])));
        i = i + 1;
    }
    let last = &parts[n - 1];
    if last.len() > 0 {
        let c = sub_chars(last, 0, last.len());
        assert(c@ =~= pieces.last());
        let ghost before = r@;
        r.push(c);
        assert(rows_of(r@) =~= rows_of(before).push(c@));
    }
    r
}

/// The length of the first piece that a word too wide for a line is cut
/// into: the characters that fit, and at least one.
pub open spec fn chunk_len(w: Seq<char>, width: int) -> int {
    let k = fit_count(w, width) as int;
    if k == 0 {
        1
    } else if k > w.len() {
        w.len() as int
    } else {
        k
    }
}

/// The pieces, in order, that a word too wide for a line is cut into.
pub open spec fn chunks(w: Seq<char>, width: int) -> Seq<Seq<char>>
    decreases w.len(),
{
    if w.len() == 0 {
        seq![]
    } else {
        let k = chunk_len(w, width);
        seq![w.take(k)] + chunks(w.skip(k), width)
    }
}

/// Appends the pieces that `w` is cut into.
fn push_chunks(out: &mut Vec<Vec<char>>, w: &Vec<char>, width: usize)
    ensures
        rows_of(final(out)@) == rows_of(old(out)@) + chunks(w@, width as int),
{
    let ghost base = rows_of(out@);
    let mut s: usize = 0;
    assert(w@.subrange(0, w.len() as int) =~= w@);
    while s < w.len()
        invariant
            s <= w.len(),
            base + chunks(w@, width as int) == rows_of(out@) + chunks(w@.subrange(s as int, w.len() as int), width as int),
        decreases w.len() - s,
    {
        let ghost rest = w@.subrange(s as int, w.len() as int);
        let mut k = fit_from(w, s, width);
        proof {
            lemma_fit_count_bound(rest, width as int);
        }
        if k == 0 {
            k = 1;
        }
        assert(k == chunk_len(rest, width as int));
        let piece = sub_chars(w, s, s + k);
        assert(piece@ =~= rest.take(k as int));
        assert(rest.skip(k as int) =~= w@.subrange(s + k, w.len() as int));
        let ghost before = out@;
        out.push(piece);
        assert(rows_of(out@) =~= rows_of(before) + seq![piece@]);
        assert(rows_of(before) + chunks(rest, width as int) =~= rows_of(out@) + chunks(
            w@.subrange(s + k, w.len() as int),
            width as int,
        ));
        s = s + k;
    }
    assert(chunks(w@.subrange(w.len() as int, w.len() as int), width as int) =~= Seq::<Seq<char>>::empty());
    assert(rows_of(out@) + Seq::<Seq<char>>::empty() =~= rows_of(out@));
}

/// One word of a paragraph taken into the wrapping state (finished lines,
/// current line, width of the current line): appended after a space when it
/// fits; otherwise the current line, if any, is finished, and the word either
/// starts the next line or, wider than a line, is cut into pieces that each
/// take a line of their own.
pub open spec fn word_step(
    st: (Seq<Seq<char>>, Seq<char>, int),
    i: int,
    word: Seq<char>,
    width: int,
) -> (Seq<Seq<char>>, Seq<char>, int) {
    let prefix: Seq<char> = if i > 0 {
        seq![' ']
    } else {
        seq![]
    };
    let pw: int = if i > 0 {
        1
    } else {
        0
    };
    let ww = str_width(word) as int;
    if st.2 + pw + ww <= width {
        (st.0, st.1 + prefix + word, st.2 + pw + ww)
    } else {
        let lines = if st.1.len() > 0 {
            st.0.push(st.1)
        } else {
            st.0
        };
        let cur_w = if st.1.len() > 0 {
            0
        } else {
            st.2
        };
        if ww > width {
            (lines + chunks(word, width), seq![], cur_w)
        } else {
            (lines, word, ww)
        }
    }
}

/// The wrapping state after the first `n` words.
pub open spec fn wrap_words(words: Seq<Seq<char>>, width: int, n: int) -> (Seq<Seq<char>>, Seq<char>, int)
    decreases n,
{
    if n <= 0 {
        (seq![], seq![], 0)
    } else {
        word_step(wrap_words(words, width, n - 1), n - 1, words[n - 1], width)
    }
}

/// The lines of one paragraph: an empty line for an empty paragraph, else
/// its words, split at each space, wrapped greedily.
pub open spec fn wrap_paragraph(p: Seq<char>, width: int) -> Seq<Seq<char>> {
    if p.len() == 0 {
        seq![seq![]]
    } else {
        let words = split_on(p, ' ');
        let st = wrap_words(words, width, words.len() as int);
        if st.1.len() > 0 {
            st.0.push(st.1)
        } else {
            st.0
        }
    }
}

/// Appends the lines of one paragraph.
fn push_paragraph(out: &mut Vec<Vec<char>>, p: &Vec<char>, width: usize)
    ensures
        rows_of(final(out)@) == rows_of(old(out)@) + wrap_paragraph(p@, width as int),
{
    if p.len() == 0 {
        let ghost before = out@;
        out.push(Vec::new());
        assert(rows_of(out@) =~= rows_of(before) + seq![Seq::<char>::empty()]);
        return;
    }
    let words = split_chars(p, ' ');
    let ghost ws = split_on(p@, ' ');
    let ghost base = rows_of(out@);
    let mut cur: Vec<char> = Vec::new();
    let mut cur_w: usize = 0;
    let mut i: usize = 0;
    assert(rows_of(out@) =~= base + Seq::<Seq<char>>::empty());
    while i < words.len()
        invariant
            ws == split_on(p@, ' '),
            words@.len() == ws.len(),
            forall|k: int| 0 <= k < words@.len() ==> #[trigger] words@[k]@ == ws[k],
            i <= words.len(),
            cur_w <= width,
            rows_of(out@) == base + wrap_words(ws, width as int, i as int).0,
            cur@ == wrap_words(ws, width as int, i as int).1,
            cur_w == wrap_words(ws, width as int, i as int).2,
        decreases words.len() - i,
    {
        let word = &words[i];
        let ghost st = wrap_words(ws, width as int, i as int);
        assert(wrap_words(ws, width as int, i + 1) == word_step(st, i as int, ws[i as int], width as int));
        let word_str = from_chars(word);
        let ww = str_width_exec(word_str.as_str());
        let pw: usize = if i > 0 {
            1
        } else {
            0
        };
        let fits = ww <= width && pw <= width - ww && cur_w <= width - ww - pw;
        if fits {
            let ghost old_cur = cur@;
            if i > 0 {
                cur.push(' ');
            }
            let ghost mid = cur@;
            crate::chars::append_chars(&mut cur, word);
            assert(cur@ =~= old_cur + (if i > 0 { seq![' '] } else { Seq::<char>::empty() }) + word@);
            cur_w = cur_w + pw + ww;
        } else {
            if cur.len() > 0 {
                let ghost before = out@;
                let done = cur;
                out.push(done);
                assert(rows_of(out@) =~= rows_of(before).push(st.1));
                assert(base + st.0.push(st.1) =~= (base + st.0).push(st.1));
                cur = Vec::new();
                cur_w = 0;
            }
            if ww > width {
                let ghost before = rows_of(out@);
                push_chunks(out, word, width);
                assert(before + chunks(word@, width as int) =~= rows_of(out@));
                proof {
                    let lines = if st.1.len() > 0 { st.0.push(st.1) } else { st.0 };
                    assert(base + (lines + chunks(ws[i as int], width as int)) =~= base + lines + chunks(
                        ws[i as int],
                        width as int,
                    ));
                }
                assert(cur@ =~= Seq::<char>::empty());
            } else {
                cur = sub_chars(word, 0, word.len());
                assert(cur@ =~= word@);
                cur_w = ww;
            }
        }
        i = i + 1;
    }
    if cur.len() > 0 {
        let ghost before = out@;
        let ghost st = wrap_words(ws, width as int, words.len() as int);
        out.push(cur);
        assert(rows_of(out@) =~= rows_of(before).push(st.1));
        assert(base + st.0.push(st.1) =~= (base + st.0).push(st.1));
    }
}

/// The lines of the first `n` paragraphs, one after another.
pub open spec fn wrap_all(ps: Seq<Seq<char>>, width: int, n: int) -> Seq<Seq<char>>
    decreases n,
{
    if n <= 0 {
        seq![]
    } else {
        wrap_all(ps, width, n - 1) + wrap_paragraph(ps[n - 1], width)
    }
}

/// A text wrapped to `width` columns: one empty line for an empty text, the
/// text unchanged for a zero width, else each of its lines wrapped at spaces
/// (a word wider than a line cut into pieces), and one empty line if that
/// leaves none.
pub open spec fn spec_wrap_text(text: Seq<char>, width: int) -> Seq<Seq<char>> {
    if text.len() == 0 {
        seq![seq![]]
    } else if width == 0 {
        seq![text]
    } else {
        let ps = spec_str_lines(text);
        let r = wrap_all(ps, width, ps.len() as int);
        if r.len() == 0 {
            seq![seq![]]
        } else {
            r
        }
    }
}

/// Wraps a text to `width` columns.
pub fn wrap_text(text: &str, width: usize) -> (r: Vec<String>)
    ensures
        r@.map_values(|s: String| s@) == spec_wrap_text(text@, width as int),
{
    let v = to_chars(text);
    let mut rows: Vec<Vec<char>> = Vec::new();
    if v.len() == 0 {
        rows.push(Vec::new());
        assert(rows_of(rows@) =~= seq![Seq::<char>::empty()]);
    } else if width == 0 {
        let all = sub_chars(&v, 0, v.len());
        rows.push(all);
        assert(all@ =~= v@);
        assert(rows_of(rows@) =~= seq![v@]);
    } else {
        let ps = str_lines(&v);
        let ghost pv = spec_str_lines(v@);
        let mut j: usize = 0;
        assert(rows_of(rows@) =~= wrap_all(pv, width as int, 0));
        while j < ps.len()
            invariant
                rows_of(ps@) == pv,
                j <= ps.len(),
                rows_of(rows@) == wrap_all(pv, width as int, j as int),
            decreases ps.len() - j,
        {
            assert(rows_of(ps@)[j as int] == ps@[j as int]@);
            push_paragraph(&mut rows, &ps[j], width);
            j = j + 1;
        }
        if rows.len() == 0 {
            rows.push(Vec::new());
            assert(rows_of(rows@) =~= seq![Seq::<char>::empty()]);
        }
    }
    let mut r: Vec<String> = Vec::new();
    let mut k: usize = 0;
    while k < rows.len()
        invariant
            k <= rows.len(),
            rows_of(rows@) == spec_wrap_text(text@, width as int),
            r@.map_values(|s: String| s@) == rows_of(rows@).take(k as int),
        decreases rows.len() - k,
    {
        let line = from_chars(&rows[k]);
        let ghost before = r@;
        r.push(line);
        assert(r@.map_values(|s: String| s@) =~= before.map_values(|s: String| s@).push(line@));
        assert(rows_of(rows@).take(k + 1) =~= rows_of(rows@).take(k as int).push(rows@[k as int]@));
        k = k + 1;
    }
    assert(rows_of(rows@).take(rows.len() as int) =~= rows_of(rows@));
    r
}

/// The layout of an embed box: its title wrapped to the box, the rows its
/// description takes, its height with the two border rows, and its color.
pub struct EmbedLayout {
    pub title: Vec<String>,
    pub description_height: u16,
    pub height: u16,
    pub color: Color,
}

/// A count as a `u16`, or `fallback` where it does not fit.
pub open spec fn u16_count(n: int, fallback: int) -> int {
    if n <= 65535 {
        n
    } else {
        fallback
    }
}

/// The width inside an embed's borders.
pub open spec fn embed_inner_width(width: u16) -> int {
    if width >= 2 {
        width - 2
    } else {
        0
    }
}

/// The title lines of an embed.
pub open spec fn embed_title(title: Option<Seq<char>>, width: u16) -> Seq<Seq<char>> {
    match title {
        Some(t) => spec_wrap_text(t, embed_inner_width(width)),
        None => seq![],
    }
}

/// The content rows of an embed: one for the provider, the title lines (as
/// many as a `u16` holds), and the description's rows (none if they do not
/// fit a `u16`).
pub open spec fn embed_rows(has_provider: bool, title: Option<Seq<char>>, width: u16, description_lines: Option<usize>) -> int {
    (if has_provider {
        1int
    } else {
        0int
    }) + (match title {
        Some(_) => u16_count(embed_title(title, width).len() as int, 65535),
        None => 0,
    }) + (match description_lines {
        Some(n) => u16_count(n as int, 0),
        None => 0,
    })
}

/// The height of an embed: its content rows and two border rows, or nothing
/// when it has no content.
pub open spec fn embed_height(rows: int) -> int {
    if rows > 0 {
        rows + 2
    } else {
        0
    }
}

/// The view of an optional string slice.
pub open spec fn opt_view(s: Option<&str>) -> Option<Seq<char>> {
    match s {
        Some(t) => Some(t@),
        None => None,
    }
}

fn layout_from_title(
    has_provider: bool,
    title_lines: Vec<String>,
    has_title: bool,
    description_lines: Option<usize>,
    embed_color: Option<u32>,
    default_color: Color,
) -> (r: EmbedLayout)
    requires
        has_title || title_lines@.len() == 0,
        embed_height(
            (if has_provider { 1int } else { 0int }) + (if has_title { u16_count(title_lines@.len() as int, 65535) } else { 0 })
                + (match description_lines { Some(n) => u16_count(n as int, 0), None => 0 }),
        ) <= 65535,
    ensures
        r.title@ == title_lines@,
        r.description_height == (match description_lines { Some(n) => u16_count(n as int, 0), None => 0 }),
        r.height == embed_height(
            (if has_provider { 1int } else { 0int }) + (if has_title { u16_count(title_lines@.len() as int, 65535) } else { 0 })
                + (match description_lines { Some(n) => u16_count(n as int, 0), None => 0 }),
        ),
        r.color == (match embed_color {
            Some(c) => Color::Rgb((c / 65536 % 256) as u8, (c / 256 % 256) as u8, (c % 256) as u8),
            None => default_color,
        }),
{
    let mut height: u16 = 0;
    if has_provider {
        height = height + 1;
    }
    if has_title {
        let n = title_lines.len();
        let t: u16 = if n <= 65535 {
            n as u16
        } else {
            65535
        };
        height = height + t;
    }
    let mut description_height: u16 = 0;
    if let Some(n) = description_lines {
        description_height = if n <= 65535 {
            n as u16
        } else {
            0
        };
        height = height + description_height;
    }
    if height > 0 {
        height = height + 2;
    }
    let color = match embed_color {
        Some(c) => u32_to_color(c),
        None => default_color,
    };
    EmbedLayout { title: title_lines, description_height, height, color }
}

/// Lays out an embed `width` columns wide, its border included, given
/// whether it names a provider, its title, the number of rows its rendered
/// description takes, and its color as `0xRRGGBB`.
pub fn calculate_embed_layout(
    has_provider: bool,
    title: Option<&str>,
    description_lines: Option<usize>,
    width: u16,
    embed_color: Option<u32>,
    default_color: Color,
) -> (r: EmbedLayout)
    requires
        embed_height(embed_rows(has_provider, opt_view(title), width, description_lines)) <= 65535,
    ensures
        r.title@.map_values(|s: String| s@) == embed_title(opt_view(title), width),
        r.description_height == (match description_lines { Some(n) => u16_count(n as int, 0), None => 0 }),
        r.height == embed_height(embed_rows(has_provider, opt_view(title), width, description_lines)),
        r.color == (match embed_color {
            Some(c) => Color::Rgb((c / 65536 % 256) as u8, (c / 256 % 256) as u8, (c % 256) as u8),
            None => default_color,
        }),
{
    let inner = width.saturating_sub(2);
    let title_lines = match title {
        Some(t) => wrap_text(t, inner as usize),
        None => Vec::new(),
    };
    assert(title_lines@.map_values(|s: String| s@).len() == title_lines@.len());
    layout_from_title(has_provider, title_lines, title.is_some(), description_lines, embed_color, default_color)
}

/// Lays out an embed as `calculate_embed_layout` does, or gives `None` when
/// its height would not fit a `u16`.
pub fn checked_embed_layout(
    has_provider: bool,
    title: Option<&str>,
    description_lines: Option<usize>,
    width: u16,
    embed_color: Option<u32>,
    default_color: Color,
) -> (r: Option<EmbedLayout>)
    ensures
        r is None <==> embed_height(embed_rows(has_provider, opt_view(title), width, description_lines)) > 65535,
        r matches Some(l) ==> {
            &&& l.title@.map_values(|s: String| s@) == embed_title(opt_view(title), width)
            &&& l.description_height == (match description_lines { Some(n) => u16_count(n as int, 0), None => 0 })
            &&& l.height == embed_height(embed_rows(has_provider, opt_view(title), width, description_lines))
            &&& l.color == (match embed_color {
                Some(c) => Color::Rgb((c / 65536 % 256) as u8, (c / 256 % 256) as u8, (c % 256) as u8),
                None => default_color,
            })
        },
{
    let inner = width.saturating_sub(2);
    let title_lines = match title {
        Some(t) => wrap_text(t, inner as usize),
        None => Vec::new(),
    };
    assert(title_lines@.map_values(|s: String| s@).len() == title_lines@.len());
    let p: usize = if has_provider {
        1
    } else {
        0
    };
    let t: usize = if title.is_some() {
        if title_lines.len() <= 65535 {
            title_lines.len()
        } else {
            65535
        }
    } else {
        0
    };
    let d: usize = match description_lines {
        Some(n) => if n <= 65535 {
            n
        } else {
            0
        },
        None => 0,
    };
    let rows = p + t + d;
    if rows > 0 && rows + 2 > 65535 {
        return None;
    }
    Some(layout_from_title(has_provider, title_lines, title.is_some(), description_lines, embed_color, default_color))
}

} // verus!
