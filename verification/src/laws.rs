//! Properties of the library as a whole, each proved over the specifications
//! that the functions' contracts use.

use vstd::prelude::*;

use crate::cli::{
    attachment_line, attachment_lines, attachment_widths, col_width, comment_block_spec,
    comment_blocks, comment_entries, comment_entry, comments_section, comments_sections,
    comments_toml_spec, escape_char, escape_spec, filter_threads_spec, is_bare_key, is_key_char,
    manifest_section, manifest_sections, prefix_col, prefix_matches_spec, size_col, thread_line,
    thread_lines, thread_widths, threads_heading, threads_table_spec, attachments_heading,
    attachments_table_spec, toml_key_spec, views_width,
};
use crate::install::commented_count;
use crate::model::{CommentView, ThreadView};
use crate::client::{
    comments_path_spec, cookie_directives_of, cookie_directives_spec, page_preview_spec,
    preview_source, COOKIE_PATH,
};
use crate::forum::{
    decimal_number, decimal_parts, exp_marker, first_label_class, pow10, scaled_value,
    thousands_spec, unsigned_part, max_page, page_count_spec, parse_threads_spec, replies_spec, split_segment,
    thread_rows, thread_slug_spec, thread_spec, thread_url, total_pages_spec, trimmed_or_empty,
    value_at, ThreadRowView, LABEL_CLASS_PREFIX, THREADS_PATH,
};
use crate::scrape::{scraped_attrs, scraped_inner_attrs, scraped_inner_texts, scraped_texts};
use crate::thread::{
    attachment_id_spec, comment_rows, comment_spec, or_empty, parse_attachments_spec,
    parse_comments_spec, parse_meta_spec, thread_title_spec, title_without_label, attachment_rows,
};
use crate::model::AttachmentView;
use crate::text::{
    all_digits, before_char, decimal, decimal_value, digit_char, digit_value, find_from,
    is_digit, is_ws, join, lemma_decimal_digits, parse_u32_spec, prefix_upto, rfind_char,
    scan_words, split_char, starts_with, strip_repeated, trim, trim_end, trim_start,
    unsigned_digits, words,
};
use crate::thread::{attachment_spec, media_spec, AttachmentRowView, MEDIA_PATH};

verus! {

proof fn lemma_decimal_value(n: nat)
    ensures
        decimal_value(decimal(n)) == n,
    decreases n,
{
    if n < 10 {
        let s = decimal(n);
        assert(s.drop_last() == Seq::<char>::empty());
        assert(digit_value(digit_char(n)) == n);
        assert(s.last() == digit_char(n));
        assert(decimal_value(s.drop_last()) == 0);
    } else {
        lemma_decimal_value(n / 10);
        let s = decimal(n);
        assert(s.drop_last() == decimal(n / 10));
        assert(digit_value(digit_char(n % 10)) == n % 10);
        assert(s.last() == digit_char(n % 10));
        assert(decimal_value(s) == decimal_value(decimal(n / 10)) * 10 + digit_value(s.last()));
        assert((n / 10) * 10 + n % 10 == n);
    }
}

/// Every number the library prints reads back as the same number:
/// `str::parse::<u32>` of `n.to_string()` is `n`.
pub proof fn law_decimal_roundtrip(n: u32)
    ensures
        parse_u32_spec(decimal(n as nat)) == Some(n),
{
    lemma_decimal_digits(n as nat);
    lemma_decimal_value(n as nat);
    let s = decimal(n as nat);
    assert(is_digit(s[0]));
    assert(unsigned_digits(s) == s);
}

/// Whether `c` occurs nowhere in `s`.
pub open spec fn lacks(s: Seq<char>, c: char) -> bool {
    forall|i: int| 0 <= i < s.len() ==> s[i] != c
}

proof fn lemma_find_char_at(h: Seq<char>, c: char, k: int, i: int)
    requires
        0 <= i <= k < h.len(),
        h[k] == c,
        forall|j: int| 0 <= j < k ==> h[j] != c,
    ensures
        find_from(h, seq![c], i) == Some(k),
    decreases k - i,
{
    if i < k {
        assert(h.subrange(i, i + 1) != seq![c]) by {
            assert(h.subrange(i, i + 1)[0] == h[i]);
        }
        lemma_find_char_at(h, c, k, i + 1);
    } else {
        assert(h.subrange(i, i + 1) =~= seq![c]);
    }
}

proof fn lemma_rfind_char_at(s: Seq<char>, c: char, k: int)
    requires
        0 <= k < s.len(),
        s[k] == c,
        forall|j: int| k < j < s.len() ==> s[j] != c,
    ensures
        rfind_char(s, c) == Some(k),
    decreases s.len(),
{
    if k < s.len() - 1 {
        lemma_rfind_char_at(s.drop_last(), c, k);
    }
}

/// A path `prefix + name + "." + number + tail` (with `name` free of `/` and
/// `tail` starting with `/`) splits back into `name` and the number's digits.
proof fn lemma_split_segment_roundtrip(
    prefix: Seq<char>,
    name: Seq<char>,
    id: u32,
    tail: Seq<char>,
)
    requires
        prefix.len() > 0,
        prefix[0] == '/',
        lacks(name, '/'),
        tail.len() > 0,
        tail[0] == '/',
    ensures
        split_segment(prefix + name + seq!['.'] + decimal(id as nat) + tail, prefix) == Some(
            (name, decimal(id as nat)),
        ),
{
    let d = decimal(id as nat);
    lemma_decimal_digits(id as nat);
    let rest = name + seq!['.'] + d + tail;
    let whole = prefix + name + seq!['.'] + d + tail;
    assert(whole == prefix + rest);
    assert(starts_with(whole, prefix)) by {
        assert(whole.take(prefix.len() as int) =~= prefix);
    }
    assert(whole.skip(prefix.len() as int) =~= rest);
    if starts_with(rest, prefix) {
        if name.len() > 0 {
            assert(rest[0] == name[0]);
            assert(rest.take(prefix.len() as int)[0] == prefix[0]);
        } else {
            assert(rest[0] == '.');
            assert(rest.take(prefix.len() as int)[0] == prefix[0]);
        }
    }
    assert(strip_repeated(rest, prefix) == rest);
    assert(strip_repeated(whole, prefix) == rest);
    let seg = name + seq!['.'] + d;
    let k = seg.len() as int;
    assert(rest =~= seg + tail);
    assert(rest[k] == '/');
    assert forall|j: int| 0 <= j < k implies rest[j] != '/' by {
        assert(rest[j] == seg[j]);
        if j < name.len() {
            assert(seg[j] == name[j]);
        } else if j == name.len() {
        } else {
            assert(seg[j] == d[j - name.len() - 1]);
            assert(is_digit(d[j - name.len() - 1]));
        }
    }
    lemma_find_char_at(rest, '/', k, 0);
    assert(before_char(rest, '/') =~= seg);
    let p = name.len() as int;
    assert(seg[p] == '.');
    assert forall|j: int| p < j < seg.len() implies seg[j] != '.' by {
        assert(seg[j] == d[j - p - 1]);
        assert(is_digit(d[j - p - 1]));
    }
    lemma_rfind_char_at(seg, '.', p);
    assert(seg.take(p) =~= name);
    assert(seg.skip(p + 1) =~= d);
}

/// A thread link the library builds leads back to the slug it was built
/// from, for any slug without a `/`.
pub proof fn law_thread_url_slug(slug: Seq<char>, id: u32)
    requires
        lacks(slug, '/'),
    ensures
        thread_slug_spec(thread_url(slug, id)) == Some(slug),
        split_segment(thread_url(slug, id), THREADS_PATH@) == Some((slug, decimal(id as nat))),
{
    reveal_strlit("/threads/");
    let tail = seq!['/'];
    assert(thread_url(slug, id) == THREADS_PATH@ + slug + seq!['.'] + decimal(id as nat) + tail);
    lemma_split_segment_roundtrip(THREADS_PATH@, slug, id, tail);
}

proof fn lemma_rfind_char_range(s: Seq<char>, c: char)
    ensures
        rfind_char(s, c) matches Some(k) ==> 0 <= k < s.len() && s[k] == c,
    decreases s.len(),
{
    if s.len() > 0 && s.last() != c {
        lemma_rfind_char_range(s.drop_last(), c);
    }
}

/// The name a link's first segment yields never holds a `/`.
pub proof fn law_segment_name_has_no_slash(href: Seq<char>, prefix: Seq<char>)
    ensures
        split_segment(href, prefix) matches Some((name, _)) ==> lacks(name, '/'),
{
    let stripped = strip_repeated(href, prefix);
    let segment = before_char(stripped, '/');
    crate::text::lemma_find_from(stripped, seq!['/'], 0);
    assert forall|j: int| 0 <= j < segment.len() implies segment[j] != '/' by {
        assert(segment[j] == stripped[j]);
        assert(!crate::text::occurs_at(stripped, seq!['/'], j));
        if stripped[j] == '/' {
            assert(stripped.subrange(j, j + 1) =~= seq!['/']);
        }
    }
    lemma_rfind_char_range(segment, '.');
    match rfind_char(segment, '.') {
        Some(k) => {
            assert(lacks(segment.take(k), '/'));
        },
        None => {},
    }
}

/// The slug a media link yields never holds a `/`.
pub proof fn law_media_slug_has_no_slash(href: Seq<char>)
    ensures
        media_spec(href) matches Some((slug, _)) ==> lacks(slug, '/'),
{
    law_segment_name_has_no_slash(href, MEDIA_PATH@);
}

/// Every thread the listing yields links to itself: its `url` leads back to
/// its `slug`.
pub proof fn law_parsed_thread_url(row: ThreadRowView)
    ensures
        thread_slug_spec(thread_spec(row).url) == Some(thread_spec(row).slug),
{
    let t = thread_spec(row);
    match row.href {
        Some(h) => law_segment_name_has_no_slash(h, THREADS_PATH@),
        None => {},
    }
    assert(lacks(t.slug, '/'));
    law_thread_url_slug(t.slug, t.id);
}

proof fn lemma_first_label_class(ws: Seq<Seq<char>>)
    ensures
        first_label_class(ws) matches Some(c) ==> starts_with(c, LABEL_CLASS_PREFIX@),
    decreases ws.len(),
{
    if ws.len() > 0 && !starts_with(ws[0], LABEL_CLASS_PREFIX@) {
        lemma_first_label_class(ws.drop_first());
    }
}

/// Every thread the listing yields links to `/threads/<slug>.<id>/`, and
/// carries a colour class only beside a prefix text: both are read off one
/// and the same label, and the colour is one of its `label--*` classes.
pub proof fn law_parsed_thread_fields(html: Seq<char>)
    ensures
        forall|i: int|
            #![trigger parse_threads_spec(html)[i]]
            0 <= i < parse_threads_spec(html).len() ==> {
                let t = parse_threads_spec(html)[i];
                &&& t.url == thread_url(t.slug, t.id)
                &&& (t.prefix_class matches Some(c) ==> t.prefix is Some && starts_with(
                    c,
                    LABEL_CLASS_PREFIX@,
                ))
            },
{
    assert forall|i: int|
        #![trigger parse_threads_spec(html)[i]]
        0 <= i < parse_threads_spec(html).len() implies {
        let t = parse_threads_spec(html)[i];
        &&& t.url == thread_url(t.slug, t.id)
        &&& (t.prefix_class matches Some(c) ==> t.prefix is Some && starts_with(
            c,
            LABEL_CLASS_PREFIX@,
        ))
    } by {
        let row = thread_rows(html)[i];
        assert(parse_threads_spec(html)[i] == thread_spec(row));
        match row.label {
            Some((_, Some(c))) => lemma_first_label_class(words(c)),
            _ => {},
        }
    }
}

/// The comments page the library asks for belongs to the very media item the
/// attachment's lightbox link named: reading the comments path as a media
/// link gives back the attachment's slug and media id.
pub proof fn law_comments_path_roundtrip(a: AttachmentView, slug: Seq<char>, id: u32)
    requires
        a.media_slug == Some(slug),
        a.media_id == Some(id),
        lacks(slug, '/'),
    ensures
        comments_path_spec(a) matches Some(path) && media_spec(path) == Some((slug, id)),
{
    reveal_strlit("/media/");
    reveal_strlit(".");
    reveal_strlit("/?lightbox=1");
    let tail = "/?lightbox=1"@;
    let path = "/media/"@ + slug + "."@ + decimal(id as nat) + tail;
    assert(comments_path_spec(a) == Some(path));
    assert("."@ =~= seq!['.']);
    lemma_split_segment_roundtrip(MEDIA_PATH@, slug, id, tail);
    law_decimal_roundtrip(id);
}

/// The comments the library fetches for an attachment read off a thread page
/// come from the media item its lightbox link names.
pub proof fn law_parsed_attachment_comments(row: AttachmentRowView)
    ensures
        match row.lightbox {
            Some(l) => match media_spec(l) {
                Some((slug, id)) => comments_path_spec(attachment_spec(row)) matches Some(path)
                    && media_spec(path) == Some((slug, id)),
                None => comments_path_spec(attachment_spec(row)) is None,
            },
            None => comments_path_spec(attachment_spec(row)) is None,
        },
{
    match row.lightbox {
        Some(l) => match media_spec(l) {
            Some((slug, id)) => {
                law_media_slug_has_no_slash(l);
                law_comments_path_roundtrip(attachment_spec(row), slug, id);
            },
            None => {},
        },
        None => {},
    }
}

/// How TOML reads the character after a backslash.
pub open spec fn unescape_char(c: char) -> char {
    if c == 'n' {
        '\n'
    } else if c == 'r' {
        '\r'
    } else if c == 't' {
        '\t'
    } else {
        c
    }
}

/// How TOML reads the inside of a basic string (for the escapes the library
/// writes).
pub open spec fn unescape(t: Seq<char>) -> Seq<char>
    decreases t.len(),
{
    if t.len() == 0 {
        seq![]
    } else if t[0] == '\\' && t.len() >= 2 {
        seq![unescape_char(t[1])] + unescape(t.skip(2))
    } else {
        seq![t[0]] + unescape(t.drop_first())
    }
}

/// Text written into the TOML files reads back unchanged: unescaping what
/// `escape_toml` wrote gives the original string.
pub proof fn law_escape_roundtrip(s: Seq<char>)
    ensures
        unescape(escape_spec(s)) == s,
    decreases s.len(),
{
    if s.len() > 0 {
        law_escape_roundtrip(s.drop_first());
        let e = escape_char(s[0]);
        let t = escape_spec(s);
        assert(t == e + escape_spec(s.drop_first()));
        if e.len() == 2 {
            assert(t[0] == '\\');
            assert(t.skip(2) =~= escape_spec(s.drop_first()));
            assert(unescape_char(t[1]) == s[0]);
        } else {
            assert(t.drop_first() =~= escape_spec(s.drop_first()));
        }
        assert(s =~= seq![s[0]] + s.drop_first());
    }
}

/// Every string value written into the TOML files stays on one line: the
/// escaped text holds no newline, carriage return or tab.
pub proof fn law_escape_one_line(s: Seq<char>)
    ensures
        forall|i: int|
            0 <= i < escape_spec(s).len() ==> {
                let c = #[trigger] escape_spec(s)[i];
                c != '\n' && c != '\r' && c != '\t'
            },
    decreases s.len(),
{
    if s.len() > 0 {
        law_escape_one_line(s.drop_first());
        let e = escape_char(s[0]);
        let rest = escape_spec(s.drop_first());
        assert(escape_spec(s) == e + rest);
        assert forall|i: int| 0 <= i < escape_spec(s).len() implies {
            let c = #[trigger] escape_spec(s)[i];
            c != '\n' && c != '\r' && c != '\t'
        } by {
            if i >= e.len() {
                assert(escape_spec(s)[i] == rest[i - e.len()]);
            }
        }
    }
}

/// Every table name in the TOML files is a bare key.
pub proof fn law_toml_key_is_bare(stem: Seq<char>, id: u32)
    ensures
        is_bare_key(toml_key_spec(stem, id)),
{
    if !is_bare_key(stem) {
        lemma_decimal_digits(id as nat);
        let d = decimal(id as nat);
        assert forall|i: int| 0 <= i < d.len() implies is_key_char(#[trigger] d[i]) by {
            assert(is_digit(d[i]));
        }
    }
}

/// Whether `s` holds no whitespace.
pub open spec fn solid(s: Seq<char>) -> bool {
    forall|i: int| 0 <= i < s.len() ==> !is_ws(#[trigger] s[i])
}

/// Whether every whitespace character of `s` is a plain space.
pub open spec fn single_spaced(s: Seq<char>) -> bool {
    forall|i: int| 0 <= i < s.len() ==> (!is_ws(#[trigger] s[i]) || s[i] == ' ')
}

proof fn lemma_scan_words_solid(s: Seq<char>)
    ensures
        forall|k: int| 0 <= k < scan_words(s).0.len() ==> solid(#[trigger] scan_words(s).0[k]),
        solid(scan_words(s).1),
    decreases s.len(),
{
    if s.len() > 0 {
        lemma_scan_words_solid(s.drop_last());
        let (ws, cur) = scan_words(s.drop_last());
        if !is_ws(s.last()) {
            assert(solid(cur.push(s.last()))) by {
                assert forall|i: int| 0 <= i < cur.push(s.last()).len() implies !is_ws(
                    #[trigger] cur.push(s.last())[i],
                ) by {
                    if i < cur.len() {
                        assert(cur.push(s.last())[i] == cur[i]);
                    }
                }
            }
        } else if cur.len() > 0 {
            assert forall|k: int| 0 <= k < ws.push(cur).len() implies solid(
                #[trigger] ws.push(cur)[k],
            ) by {
                if k < ws.len() {
                    assert(ws.push(cur)[k] == ws[k]);
                }
            }
            assert(solid(Seq::<char>::empty()));
        }
    }
}

proof fn lemma_words_solid(s: Seq<char>)
    ensures
        forall|k: int| 0 <= k < words(s).len() ==> solid(#[trigger] words(s)[k]),
{
    lemma_scan_words_solid(s);
    let (ws, cur) = scan_words(s);
    if cur.len() > 0 {
        assert forall|k: int| 0 <= k < ws.push(cur).len() implies solid(#[trigger] ws.push(cur)[k]) by {
            if k < ws.len() {
                assert(ws.push(cur)[k] == ws[k]);
            }
        }
    }
}

proof fn lemma_join_single_spaced(ws: Seq<Seq<char>>)
    requires
        forall|k: int| 0 <= k < ws.len() ==> solid(#[trigger] ws[k]),
    ensures
        single_spaced(join(ws, seq![' '])),
    decreases ws.len(),
{
    if ws.len() == 1 {
        assert(solid(ws[0]));
    } else if ws.len() > 1 {
        let prev = ws.drop_last();
        assert forall|k: int| 0 <= k < prev.len() implies solid(#[trigger] prev[k]) by {
            assert(prev[k] == ws[k]);
        }
        lemma_join_single_spaced(prev);
        let a = join(prev, seq![' ']);
        let last = ws.last();
        assert(solid(ws[ws.len() - 1]));
        let j = a + seq![' '] + last;
        assert(join(ws, seq![' ']) == j);
        assert forall|i: int| 0 <= i < j.len() implies (!is_ws(#[trigger] j[i]) || j[i] == ' ') by {
            if i < a.len() {
                assert(j[i] == a[i]);
            } else if i == a.len() {
            } else {
                assert(j[i] == last[i - a.len() - 1]);
            }
        }
    }
}

/// The preview of an unexpected page fits in an error message: at most 200
/// characters, on one line, with single spaces as its only whitespace.
pub proof fn law_preview_one_line(html: Seq<char>)
    ensures
        page_preview_spec(html).len() <= 200,
        single_spaced(page_preview_spec(html)),
{
    let src = preview_source(html);
    lemma_words_solid(src);
    lemma_join_single_spaced(words(src));
    let j = join(words(src), seq![' ']);
    let p = prefix_upto(j, 200);
    assert forall|i: int| 0 <= i < p.len() implies (!is_ws(#[trigger] p[i]) || p[i] == ' ') by {
        assert(p[i] == j[i]);
    }
}

/// `comments.toml` is written exactly when some attachment has comments: the
/// count of commented attachments is positive if and only if one of them has
/// a comment.
pub proof fn law_commented_count(items: Seq<(AttachmentView, Seq<CommentView>)>)
    ensures
        commented_count(items) > 0 <==> exists|i: int| 0 <= i < items.len() && #[trigger] items[i].1.len() > 0,
    decreases items.len(),
{
    if items.len() > 0 {
        let prev = items.drop_last();
        law_commented_count(prev);
        if commented_count(prev) > 0 {
            let i = choose|i: int| 0 <= i < prev.len() && #[trigger] prev[i].1.len() > 0;
            assert(items[i] == prev[i]);
        }
        if exists|i: int| 0 <= i < items.len() && #[trigger] items[i].1.len() > 0 {
            let i = choose|i: int| 0 <= i < items.len() && #[trigger] items[i].1.len() > 0;
            if i < items.len() - 1 {
                assert(prev[i] == items[i]);
            }
        }
    }
}

/// The `search` filter keeps only threads whose prefix matches it, in their
/// listing order, and drops no matching thread.
pub proof fn law_filter_keeps_matches(ts: Seq<ThreadView>, filter: Seq<char>)
    ensures
        forall|i: int|
            0 <= i < filter_threads_spec(ts, filter).len() ==> prefix_matches_spec(
                #[trigger] filter_threads_spec(ts, filter)[i].prefix,
                filter,
            ),
        filter_threads_spec(ts, filter).len() <= ts.len(),
        (forall|i: int| 0 <= i < ts.len() ==> prefix_matches_spec(#[trigger] ts[i].prefix, filter))
            ==> filter_threads_spec(ts, filter) == ts,
    decreases ts.len(),
{
    if ts.len() > 0 {
        let prev = ts.drop_last();
        law_filter_keeps_matches(prev, filter);
        let fp = filter_threads_spec(prev, filter);
        if prefix_matches_spec(ts.last().prefix, filter) {
            assert forall|i: int| 0 <= i < fp.push(ts.last()).len() implies prefix_matches_spec(
                #[trigger] fp.push(ts.last())[i].prefix,
                filter,
            ) by {
                if i < fp.len() {
                    assert(fp.push(ts.last())[i] == fp[i]);
                }
            }
        }
        if forall|i: int| 0 <= i < ts.len() ==> prefix_matches_spec(#[trigger] ts[i].prefix, filter) {
            assert forall|i: int| 0 <= i < prev.len() implies prefix_matches_spec(
                #[trigger] prev[i].prefix,
                filter,
            ) by {
                assert(prev[i] == ts[i]);
            }
            assert(prefix_matches_spec(ts[ts.len() - 1].prefix, filter));
            assert(prev.push(ts.last()) =~= ts);
        }
    }
}

/// Splitting after a separator starts a new piece.
proof fn lemma_split_push_separator(x: Seq<char>, c: char)
    ensures
        split_char(x.push(c), c) == split_char(x, c).push(seq![]),
{
    assert(x.push(c).drop_last() == x);
}

/// Text without the separator extends the last piece.
proof fn lemma_split_append_plain(x: Seq<char>, y: Seq<char>, c: char)
    requires
        lacks(y, c),
    ensures
        split_char(x + y, c).len() == split_char(x, c).len(),
        split_char(x + y, c).drop_last() == split_char(x, c).drop_last(),
        split_char(x + y, c).last() == split_char(x, c).last() + y,
    decreases y.len(),
{
    crate::text::lemma_split_char_len(x, c);
    if y.len() == 0 {
        assert(x + y == x);
        assert(split_char(x, c).last() + y == split_char(x, c).last());
    } else {
        let y0 = y.drop_last();
        assert(lacks(y0, c));
        lemma_split_append_plain(x, y0, c);
        let xy = x + y;
        assert(xy.drop_last() == x + y0);
        assert(xy.last() == y.last());
        assert(y.last() != c);
        crate::text::lemma_split_char_len(x + y0, c);
        let ps = split_char(x + y0, c);
        assert(split_char(xy, c) == ps.update(ps.len() - 1, ps.last().push(y.last())));
        assert(split_char(x, c).last() + y == (split_char(x, c).last() + y0).push(y.last()));
        assert(split_char(xy, c).drop_last() =~= ps.drop_last());
    }
}

/// A cookie `name=value` pair as the jar prints it: not empty, no `;`, no
/// surrounding whitespace.
pub open spec fn plain_pair(p: Seq<char>) -> bool {
    p.len() > 0 && lacks(p, ';') && trim(p) == p
}

/// The pairs of a cookie header joined as the jar prints them.
pub open spec fn cookie_header(pairs: Seq<Seq<char>>) -> Seq<char> {
    join(pairs, "; "@)
}

proof fn lemma_trim_leading_space(p: Seq<char>)
    requires
        trim(p) == p,
    ensures
        trim(seq![' '] + p) == p,
{
    let q = seq![' '] + p;
    assert(q.drop_first() == p);
    assert(is_ws(' '));
    assert(trim_start(q) == trim_start(p));
}

proof fn lemma_cookie_header_pieces(pairs: Seq<Seq<char>>)
    requires
        pairs.len() > 0,
        forall|i: int| 0 <= i < pairs.len() ==> plain_pair(#[trigger] pairs[i]),
    ensures
        split_char(cookie_header(pairs), ';').len() == pairs.len(),
        forall|i: int| 0 <= i < pairs.len() ==> trim(#[trigger] split_char(cookie_header(pairs), ';')[i]) == pairs[i],
    decreases pairs.len(),
{
    reveal_strlit("; ");
    assert("; "@ == seq![';', ' ']);
    if pairs.len() == 1 {
        let p = pairs[0];
        assert(plain_pair(p));
        assert(cookie_header(pairs) == p);
        lemma_split_append_plain(seq![], p, ';');
        assert(seq![] + p == p);
        assert(split_char(Seq::<char>::empty(), ';') == seq![Seq::<char>::empty()]);
        assert(Seq::<char>::empty() + p == p);
    } else {
        let prev = pairs.drop_last();
        assert forall|i: int| 0 <= i < prev.len() implies plain_pair(#[trigger] prev[i]) by {
            assert(prev[i] == pairs[i]);
        }
        lemma_cookie_header_pieces(prev);
        let h = cookie_header(prev);
        let last = pairs.last();
        assert(plain_pair(pairs[pairs.len() - 1]));
        let tail = seq![' '] + last;
        assert(cookie_header(pairs) == h + "; "@ + last);
        assert(h + "; "@ + last == h.push(';') + tail);
        assert forall|i: int| 0 <= i < tail.len() implies tail[i] != ';' by {
            if i > 0 {
                assert(tail[i] == last[i - 1]);
            }
        }
        lemma_split_push_separator(h, ';');
        lemma_split_append_plain(h.push(';'), tail, ';');
        let before = split_char(h, ';');
        let mid = split_char(h.push(';'), ';');
        let after = split_char(cookie_header(pairs), ';');
        assert(mid == before.push(seq![]));
        assert(after.len() == pairs.len());
        assert(after.drop_last() == before);
        assert(after.last() =~= tail);
        lemma_trim_leading_space(last);
        assert forall|i: int| 0 <= i < pairs.len() implies trim(#[trigger] after[i]) == pairs[i] by {
            if i < pairs.len() - 1 {
                assert(after[i] == after.drop_last()[i]);
                assert(prev[i] == pairs[i]);
            }
        }
    }
}

proof fn lemma_directives_of_trimmed(parts: Seq<Seq<char>>, pairs: Seq<Seq<char>>)
    requires
        parts.len() == pairs.len(),
        forall|i: int| 0 <= i < pairs.len() ==> plain_pair(#[trigger] pairs[i]),
        forall|i: int| 0 <= i < parts.len() ==> trim(#[trigger] parts[i]) == pairs[i],
    ensures
        cookie_directives_of(parts) == pairs.map_values(|p: Seq<char>| p + COOKIE_PATH@),
    decreases parts.len(),
{
    if parts.len() > 0 {
        let pp = parts.drop_last();
        let qq = pairs.drop_last();
        assert forall|i: int| 0 <= i < qq.len() implies plain_pair(#[trigger] qq[i]) by {
            assert(qq[i] == pairs[i]);
        }
        assert forall|i: int| 0 <= i < pp.len() implies trim(#[trigger] pp[i]) == qq[i] by {
            assert(pp[i] == parts[i]);
            assert(qq[i] == pairs[i]);
        }
        lemma_directives_of_trimmed(pp, qq);
        assert(trim(parts[parts.len() - 1]) == pairs[pairs.len() - 1]);
        assert(plain_pair(pairs[pairs.len() - 1]));
        assert(pairs.map_values(|p: Seq<char>| p + COOKIE_PATH@) =~= qq.map_values(
            |p: Seq<char>| p + COOKIE_PATH@,
        ).push(pairs.last() + COOKIE_PATH@));
    } else {
        assert(pairs.map_values(|p: Seq<char>| p + COOKIE_PATH@) =~= seq![]);
    }
}

/// A saved session restores cookie by cookie: reading back the cookie header
/// the jar printed (`name=value; name=value`) yields each pair again, scoped
/// to the whole site.
pub proof fn law_cookie_header_roundtrip(pairs: Seq<Seq<char>>)
    requires
        forall|i: int| 0 <= i < pairs.len() ==> plain_pair(#[trigger] pairs[i]),
    ensures
        cookie_directives_spec(cookie_header(pairs)) == pairs.map_values(
            |p: Seq<char>| p + COOKIE_PATH@,
        ),
{
    if pairs.len() == 0 {
        assert(cookie_header(pairs) == Seq::<char>::empty());
        let parts = split_char(Seq::<char>::empty(), ';');
        assert(parts == seq![Seq::<char>::empty()]);
        assert(parts.drop_last() =~= Seq::<Seq<char>>::empty());
        assert(trim(Seq::<char>::empty()) == Seq::<char>::empty());
        assert(parts.last() == Seq::<char>::empty());
        assert(cookie_directives_of(parts.drop_last()) == Seq::<Seq<char>>::empty());
        assert(cookie_directives_of(parts) == Seq::<Seq<char>>::empty());
        assert(cookie_directives_spec(cookie_header(pairs)) == cookie_directives_of(parts));
        assert(pairs.map_values(|p: Seq<char>| p + COOKIE_PATH@) =~= seq![]);
    } else {
        lemma_cookie_header_pieces(pairs);
        lemma_directives_of_trimmed(split_char(cookie_header(pairs), ';'), pairs);
    }
}

// ---------------------------------------------------------------------------
// Page counts
// ---------------------------------------------------------------------------

proof fn lemma_max_page(ts: Seq<Seq<char>>)
    ensures
        forall|i: int|
            0 <= i < ts.len() && (#[trigger] parse_u32_spec(trim(ts[i]))) is Some ==> (max_page(
                ts,
            ) is Some && parse_u32_spec(trim(ts[i])).unwrap() <= max_page(ts).unwrap()),
        max_page(ts) matches Some(m) ==> exists|i: int|
            0 <= i < ts.len() && #[trigger] parse_u32_spec(trim(ts[i])) == Some(m),
    decreases ts.len(),
{
    if ts.len() > 0 {
        let init = ts.drop_last();
        lemma_max_page(init);
        assert forall|i: int| 0 <= i < init.len() implies #[trigger] parse_u32_spec(trim(init[i]))
            == parse_u32_spec(trim(ts[i])) by {
            assert(init[i] == ts[i]);
        }
        let last = parse_u32_spec(trim(ts[ts.len() - 1]));
        assert(ts.last() == ts[ts.len() - 1]);
        assert forall|i: int|
            0 <= i < ts.len() && (#[trigger] parse_u32_spec(trim(ts[i]))) is Some implies (max_page(
                ts,
            ) is Some && parse_u32_spec(trim(ts[i])).unwrap() <= max_page(ts).unwrap()) by {
            if i < init.len() {
                assert(init[i] == ts[i]);
                assert(parse_u32_spec(trim(init[i])) is Some);
            }
        }
        match max_page(ts) {
            Some(m) => {
                if last == Some(m) {
                } else {
                    let j = choose|j: int|
                        0 <= j < init.len() && #[trigger] parse_u32_spec(trim(init[j])) == Some(m);
                    assert(parse_u32_spec(trim(ts[j])) == Some(m));
                }
            },
            None => {},
        }
    }
}

/// The page count of a navigation is at least every page number among its
/// labels (each label trimmed and read as a `u32`) and is one of them; it is
/// 1 when no label is a number.
pub proof fn law_page_count_is_largest_label(ts: Seq<Seq<char>>)
    ensures
        forall|i: int|
            0 <= i < ts.len() && (#[trigger] parse_u32_spec(trim(ts[i]))) is Some ==> parse_u32_spec(
                trim(ts[i]),
            ).unwrap() <= page_count_spec(ts),
        (exists|i: int| 0 <= i < ts.len() && (#[trigger] parse_u32_spec(trim(ts[i]))) is Some)
            ==> exists|i: int|
            0 <= i < ts.len() && #[trigger] parse_u32_spec(trim(ts[i])) == Some(page_count_spec(ts)),
        (forall|i: int| 0 <= i < ts.len() ==> (#[trigger] parse_u32_spec(trim(ts[i]))) is None)
            ==> page_count_spec(ts) == 1,
{
    lemma_max_page(ts);
}

/// The labels of a page's numbered navigation links.
pub open spec fn page_nav_labels(html: Seq<char>) -> Seq<Seq<char>> {
    match scraped_texts(html, ".pageNav-main li.pageNav-page:not(.pageNav-page--skip)"@) {
        Some(t) => t,
        None => seq![],
    }
}

/// A forum page counts as many pages as the largest number among its
/// numbered navigation links (skip items excluded), and 1 when it has none.
pub proof fn law_total_pages_is_largest_label(html: Seq<char>)
    ensures
        forall|i: int|
            0 <= i < page_nav_labels(html).len() && (#[trigger] parse_u32_spec(
                trim(page_nav_labels(html)[i]),
            )) is Some ==> parse_u32_spec(trim(page_nav_labels(html)[i])).unwrap()
                <= total_pages_spec(html),
        (exists|i: int|
            0 <= i < page_nav_labels(html).len() && (#[trigger] parse_u32_spec(
                trim(page_nav_labels(html)[i]),
            )) is Some) ==> exists|i: int|
            0 <= i < page_nav_labels(html).len() && #[trigger] parse_u32_spec(
                trim(page_nav_labels(html)[i]),
            ) == Some(total_pages_spec(html)),
        (forall|i: int|
            0 <= i < page_nav_labels(html).len() ==> (#[trigger] parse_u32_spec(
                trim(page_nav_labels(html)[i]),
            )) is None) ==> total_pages_spec(html) == 1,
{
    assert(crate::forum::PAGE_NAV@ == ".pageNav-main li.pageNav-page:not(.pageNav-page--skip)"@);
    law_page_count_is_largest_label(page_nav_labels(html));
}

// ---------------------------------------------------------------------------
// Thread listing columns
// ---------------------------------------------------------------------------

/// Each listed thread's title, author and reply count come from its own
/// row: the first title link (`.structItem-title > a:not(.labelLink)`), the
/// first starter name (`.structItem-parts .username`) and the first cell of
/// the meta column (`.structItem-cell--meta dd`, the replies, not the views)
/// of the `i`-th row; a plain number in that cell is the count itself.
pub proof fn law_parsed_thread_columns(html: Seq<char>)
    ensures
        forall|i: int|
            #![trigger parse_threads_spec(html)[i]]
            0 <= i < parse_threads_spec(html).len() ==> {
                let t = parse_threads_spec(html)[i];
                let item = ".js-threadList > .structItem--thread"@;
                let replies = value_at(
                    scraped_inner_texts(html, item, ".structItem-cell--meta dd"@),
                    i,
                );
                &&& t.title == trimmed_or_empty(
                    value_at(
                        scraped_inner_texts(html, item, ".structItem-title > a:not(.labelLink)"@),
                        i,
                    ),
                )
                &&& t.author == trimmed_or_empty(
                    value_at(scraped_inner_texts(html, item, ".structItem-parts .username"@), i),
                )
                &&& t.replies == match replies {
                    Some(r) => replies_spec(r),
                    None => 0,
                }
                &&& (replies matches Some(r) ==> (parse_u32_spec(trim(r)) matches Some(n) ==> t.replies
                    == n))
            },
{
    assert(crate::forum::THREAD_ITEM@ == ".js-threadList > .structItem--thread"@);
    assert(crate::forum::THREAD_REPLIES@ == ".structItem-cell--meta dd"@);
    assert(crate::forum::THREAD_TITLE@ == ".structItem-title > a:not(.labelLink)"@);
    assert(crate::forum::THREAD_AUTHOR@ == ".structItem-parts .username"@);
    assert forall|i: int|
        #![trigger parse_threads_spec(html)[i]]
        0 <= i < parse_threads_spec(html).len() implies {
        let t = parse_threads_spec(html)[i];
        let item = ".js-threadList > .structItem--thread"@;
        let replies = value_at(scraped_inner_texts(html, item, ".structItem-cell--meta dd"@), i);
        &&& t.title == trimmed_or_empty(
            value_at(
                scraped_inner_texts(html, item, ".structItem-title > a:not(.labelLink)"@),
                i,
            ),
        )
        &&& t.author == trimmed_or_empty(
            value_at(scraped_inner_texts(html, item, ".structItem-parts .username"@), i),
        )
        &&& t.replies == match replies {
            Some(r) => replies_spec(r),
            None => 0,
        }
        &&& (replies matches Some(r) ==> (parse_u32_spec(trim(r)) matches Some(n) ==> t.replies
            == n))
    } by {
        let row = thread_rows(html)[i];
        assert(parse_threads_spec(html)[i] == thread_spec(row));
        match row.replies {
            Some(r) => lemma_plain_reply_count(r),
            None => {},
        }
    }
}

proof fn lemma_plain_reply_count(r: Seq<char>)
    ensures
        parse_u32_spec(trim(r)) matches Some(n) ==> replies_spec(r) == n,
{
    let t = trim(r);
    if parse_u32_spec(t) is Some {
        let d = unsigned_digits(t);
        assert(d[d.len() - 1] == t[t.len() - 1]);
        assert(is_digit(d[d.len() - 1]));
        assert(t.last() != 'K');
    }
}

// ---------------------------------------------------------------------------
// Thread titles
// ---------------------------------------------------------------------------

/// A thread's title is its heading without the prefix label: when the
/// trimmed label is not empty and the trimmed heading starts with it, the
/// title is the rest of the heading, trimmed (whatever separates the two);
/// otherwise it is the whole trimmed heading.
pub proof fn law_title_drops_label(heading: Seq<char>, label: Seq<char>)
    ensures
        ({
            let t = trim(heading);
            let l = trim(label);
            &&& (l.len() > 0 && l.len() <= t.len() && t.take(l.len() as int) == l) ==> title_without_label(t, l) == trim(
                t.skip(l.len() as int),
            )
            &&& !(l.len() > 0 && l.len() <= t.len() && t.take(l.len() as int) == l)
                ==> title_without_label(t, l) == t
        }),
{
}

// ---------------------------------------------------------------------------
// Tables
// ---------------------------------------------------------------------------

proof fn lemma_col_width<T>(xs: Seq<T>, f: spec_fn(T) -> nat, floor: nat)
    ensures
        col_width(xs, f, floor) >= floor,
        forall|i: int| 0 <= i < xs.len() ==> f(#[trigger] xs[i]) <= col_width(xs, f, floor),
        col_width(xs, f, floor) == floor || exists|i: int|
            0 <= i < xs.len() && f(#[trigger] xs[i]) == col_width(xs, f, floor),
    decreases xs.len(),
{
    if xs.len() > 0 {
        let init = xs.drop_last();
        lemma_col_width(init, f, floor);
        assert forall|i: int| 0 <= i < xs.len() implies f(#[trigger] xs[i]) <= col_width(
            xs,
            f,
            floor,
        ) by {
            if i < init.len() {
                assert(init[i] == xs[i]);
            }
        }
        if col_width(xs, f, floor) != floor && col_width(xs, f, floor) != f(xs.last()) {
            let j = choose|j: int| 0 <= j < init.len() && f(#[trigger] init[j]) == col_width(init, f, floor);
            assert(init[j] == xs[j]);
        }
    }
}

/// Every column of the thread table is as wide as its widest entry over all
/// threads, and no narrower than its heading: each width bounds every
/// thread's entry, is at least the heading's floor, and is the floor or
/// some thread's entry.
pub proof fn law_thread_widths_fit(ts: Seq<ThreadView>)
    ensures
        ({
            let w = thread_widths(ts);
            &&& w.0 >= 2 && w.1 >= 6 && w.2 >= 5 && w.3 >= 6 && w.4 >= 7
            &&& forall|i: int|
                #![trigger ts[i]]
                0 <= i < ts.len() ==> {
                    &&& decimal(ts[i].id as nat).len() <= w.0
                    &&& prefix_col(ts[i]).len() <= w.1
                    &&& ts[i].title.len() <= w.2
                    &&& ts[i].author.len() <= w.3
                    &&& decimal(ts[i].replies as nat).len() <= w.4
                }
            &&& (w.0 == 2 || exists|i: int| 0 <= i < ts.len() && w.0 == decimal(#[trigger] ts[i].id as nat).len())
            &&& (w.1 == 6 || exists|i: int| 0 <= i < ts.len() && w.1 == prefix_col(#[trigger] ts[i]).len())
            &&& (w.2 == 5 || exists|i: int| 0 <= i < ts.len() && w.2 == (#[trigger] ts[i]).title.len())
            &&& (w.3 == 6 || exists|i: int| 0 <= i < ts.len() && w.3 == (#[trigger] ts[i]).author.len())
            &&& (w.4 == 7 || exists|i: int| 0 <= i < ts.len() && w.4 == decimal((#[trigger] ts[i]).replies as nat).len())
        }),
{
    let f0 = |t: ThreadView| decimal(t.id as nat).len();
    let f1 = |t: ThreadView| prefix_col(t).len();
    let f2 = |t: ThreadView| t.title.len();
    let f3 = |t: ThreadView| t.author.len();
    let f4 = |t: ThreadView| decimal(t.replies as nat).len();
    lemma_col_width(ts, f0, 2);
    lemma_col_width(ts, f1, 6);
    lemma_col_width(ts, f2, 5);
    lemma_col_width(ts, f3, 6);
    lemma_col_width(ts, f4, 7);
    let w = thread_widths(ts);
    assert(w == (col_width(ts, f0, 2), col_width(ts, f1, 6), col_width(ts, f2, 5), col_width(ts, f3, 6), col_width(ts, f4, 7)));
    assert forall|i: int| #![trigger ts[i]] 0 <= i < ts.len() implies {
        &&& decimal(ts[i].id as nat).len() <= w.0
        &&& prefix_col(ts[i]).len() <= w.1
        &&& ts[i].title.len() <= w.2
        &&& ts[i].author.len() <= w.3
        &&& decimal(ts[i].replies as nat).len() <= w.4
    } by {
        assert(f0(ts[i]) <= w.0);
        assert(f1(ts[i]) <= w.1);
        assert(f2(ts[i]) <= w.2);
        assert(f3(ts[i]) <= w.3);
        assert(f4(ts[i]) <= w.4);
    }
    if w.0 != 2 {
        let i = choose|i: int| 0 <= i < ts.len() && f0(#[trigger] ts[i]) == w.0;
        assert(w.0 == decimal(ts[i].id as nat).len());
    }
    if w.1 != 6 {
        let i = choose|i: int| 0 <= i < ts.len() && f1(#[trigger] ts[i]) == w.1;
        assert(w.1 == prefix_col(ts[i]).len());
    }
    if w.2 != 5 {
        let i = choose|i: int| 0 <= i < ts.len() && f2(#[trigger] ts[i]) == w.2;
        assert(w.2 == ts[i].title.len());
    }
    if w.3 != 6 {
        let i = choose|i: int| 0 <= i < ts.len() && f3(#[trigger] ts[i]) == w.3;
        assert(w.3 == ts[i].author.len());
    }
    if w.4 != 7 {
        let i = choose|i: int| 0 <= i < ts.len() && f4(#[trigger] ts[i]) == w.4;
        assert(w.4 == decimal(ts[i].replies as nat).len());
    }
}

// ---------------------------------------------------------------------------
// comments.toml
// ---------------------------------------------------------------------------

/// Each attachment adds its own table to `comments.toml`, after those of
/// the attachments before it, whatever those held.
pub proof fn law_comments_sections_append(
    items: Seq<(AttachmentView, Seq<CommentView>)>,
    x: (AttachmentView, Seq<CommentView>),
)
    ensures
        comments_sections(items.push(x)) == comments_sections(items) + comments_section(x.0, x.1),
{
    assert(items.push(x).drop_last() == items);
}

/// `comments.toml` is the same whether or not the attachments without
/// comments are listed: they add nothing, and every other attachment keeps
/// its table.
pub proof fn law_comments_toml_skips_empty(
    title: Seq<char>,
    id: u32,
    items: Seq<(AttachmentView, Seq<CommentView>)>,
)
    ensures
        comments_toml_spec(title, id, items) == comments_toml_spec(
            title,
            id,
            items.filter(|it: (AttachmentView, Seq<CommentView>)| it.1.len() > 0),
        ),
    decreases items.len(),
{
    lemma_sections_filter(items);
}

proof fn lemma_sections_filter(items: Seq<(AttachmentView, Seq<CommentView>)>)
    ensures
        comments_sections(items) == comments_sections(
            items.filter(|it: (AttachmentView, Seq<CommentView>)| it.1.len() > 0),
        ),
    decreases items.len(),
{
    reveal(Seq::filter);
    let pred = |it: (AttachmentView, Seq<CommentView>)| it.1.len() > 0;
    if items.len() > 0 {
        let init = items.drop_last();
        lemma_sections_filter(init);
        let x = items.last();
        if pred(x) {
            law_comments_sections_append(init.filter(pred), x);
        } else {
            assert(comments_section(x.0, x.1) == Seq::<char>::empty());
            assert(comments_sections(items) == comments_sections(init) + Seq::<char>::empty());
        }
    }
}

// ---------------------------------------------------------------------------
// Thread pages
// ---------------------------------------------------------------------------

/// A thread page's title is read off its first `.p-title-value` heading:
/// the heading's text trimmed, without the text of its first `.label`; a
/// page without such a heading has an empty title.
pub proof fn law_thread_title_from_heading(html: Seq<char>)
    ensures
        match scraped_texts(html, ".p-title-value"@) {
            Some(hs) => if hs.len() > 0 {
                thread_title_spec(html) == title_without_label(
                    trim(hs[0]),
                    trimmed_or_empty(
                        value_at(scraped_inner_texts(html, ".p-title-value"@, ".label"@), 0),
                    ),
                )
            } else {
                thread_title_spec(html) == Seq::<char>::empty()
            },
            None => thread_title_spec(html) == Seq::<char>::empty(),
        },
{
    assert(crate::thread::PAGE_TITLE@ == ".p-title-value"@);
    assert(crate::thread::TITLE_LABEL@ == ".label"@);
}

/// A thread page lists one attachment per `ul.attachmentList li.file`
/// item, in order; each takes its link from the item's first
/// `a.file-preview`, its name (trimmed) from its first `.file-name` and its
/// size and view count from its first `.file-meta`.
pub proof fn law_parsed_attachment_columns(html: Seq<char>)
    ensures
        ({
            let item = "ul.attachmentList li.file"@;
            let hrefs = scraped_inner_attrs(html, item, "a.file-preview"@, "href"@);
            &&& parse_attachments_spec(html).len() == crate::forum::column_len(hrefs)
            &&& forall|i: int|
                #![trigger parse_attachments_spec(html)[i]]
                0 <= i < parse_attachments_spec(html).len() ==> {
                    let a = parse_attachments_spec(html)[i];
                    let meta = parse_meta_spec(
                        or_empty(value_at(scraped_inner_texts(html, item, ".file-meta"@), i)),
                    );
                    &&& a.url == or_empty(value_at(hrefs, i))
                    &&& a.id == attachment_id_spec(a.url)
                    &&& a.name == trimmed_or_empty(
                        value_at(scraped_inner_texts(html, item, ".file-name"@), i),
                    )
                    &&& a.size == meta.0
                    &&& a.views == meta.1
                }
        }),
{
    assert(crate::thread::ATTACHMENT_ITEM@ == "ul.attachmentList li.file"@);
    assert(crate::thread::ATTACHMENT_LINK@ == "a.file-preview"@);
    assert(crate::thread::ATTACHMENT_NAME@ == ".file-name"@);
    assert(crate::thread::ATTACHMENT_META@ == ".file-meta"@);
    assert forall|i: int|
        #![trigger parse_attachments_spec(html)[i]]
        0 <= i < parse_attachments_spec(html).len() implies parse_attachments_spec(html)[i]
        == crate::thread::attachment_spec(attachment_rows(html)[i]) by {}
}

/// A media page lists one comment per `div.js-comment`, in order; each takes
/// its author from its first `.comment-user` (trimmed) or else from its
/// `data-author` attribute, its body (trimmed) from its first
/// `.comment-body`, its date from the `datetime` of its first `time.u-dt`
/// and its vote (trimmed) from its first `.user-fuo-vote`.
pub proof fn law_parsed_comment_columns(html: Seq<char>)
    ensures
        ({
            let item = "div.js-comment"@;
            let author_attrs = scraped_attrs(html, item, "data-author"@);
            &&& parse_comments_spec(html).len() == crate::forum::column_len(author_attrs)
            &&& forall|i: int|
                #![trigger parse_comments_spec(html)[i]]
                0 <= i < parse_comments_spec(html).len() ==> {
                    let c = parse_comments_spec(html)[i];
                    &&& c.author == match value_at(
                        scraped_inner_texts(html, item, ".comment-user"@),
                        i,
                    ) {
                        Some(a) => trim(a),
                        None => or_empty(value_at(author_attrs, i)),
                    }
                    &&& c.body == trimmed_or_empty(
                        value_at(scraped_inner_texts(html, item, ".comment-body"@), i),
                    )
                    &&& c.date == or_empty(
                        value_at(scraped_inner_attrs(html, item, "time.u-dt"@, "datetime"@), i),
                    )
                    &&& c.vote == match value_at(
                        scraped_inner_texts(html, item, ".user-fuo-vote"@),
                        i,
                    ) {
                        Some(v) => Some(trim(v)),
                        None => None,
                    }
                }
        }),
{
    assert(crate::thread::COMMENT_ITEM@ == "div.js-comment"@);
    assert(crate::thread::COMMENT_AUTHOR@ == ".comment-user"@);
    assert(crate::thread::COMMENT_BODY@ == ".comment-body"@);
    assert(crate::thread::COMMENT_DATE@ == "time.u-dt"@);
    assert(crate::thread::COMMENT_VOTE@ == ".user-fuo-vote"@);
    assert forall|i: int|
        #![trigger parse_comments_spec(html)[i]]
        0 <= i < parse_comments_spec(html).len() implies parse_comments_spec(html)[i]
        == comment_spec(comment_rows(html)[i]) by {}
}

/// An attachment link `/attachments/<name>.<id>/...`, with a name free of
/// `/`, gives back the id it carries.
pub proof fn law_attachment_link_id(name: Seq<char>, id: u32, tail: Seq<char>)
    requires
        lacks(name, '/'),
        tail.len() > 0,
        tail[0] == '/',
    ensures
        attachment_id_spec("/attachments/"@ + name + seq!['.'] + decimal(id as nat) + tail) == id,
{
    reveal_strlit("/attachments/");
    assert(crate::thread::ATTACHMENTS_PATH@ == "/attachments/"@);
    lemma_split_segment_roundtrip("/attachments/"@, name, id, tail);
    law_decimal_roundtrip(id);
}

/// A lightbox link `/media/<slug>.<id>/...`, with a slug free of `/`,
/// names that slug and id.
pub proof fn law_media_link(slug: Seq<char>, id: u32, tail: Seq<char>)
    requires
        lacks(slug, '/'),
        tail.len() > 0,
        tail[0] == '/',
    ensures
        media_spec("/media/"@ + slug + seq!['.'] + decimal(id as nat) + tail) == Some((slug, id)),
{
    reveal_strlit("/media/");
    assert(MEDIA_PATH@ == "/media/"@);
    lemma_split_segment_roundtrip("/media/"@, slug, id, tail);
    law_decimal_roundtrip(id);
}

// ---------------------------------------------------------------------------
// Printed and written output, piece by piece
// ---------------------------------------------------------------------------

/// Each thread adds its own line to the table, after the lines of the
/// threads before it.
pub proof fn law_thread_lines_append(
    ts: Seq<ThreadView>,
    t: ThreadView,
    w: (nat, nat, nat, nat, nat),
)
    ensures
        thread_lines(ts.push(t), w) == thread_lines(ts, w) + thread_line(t, w),
{
    assert(ts.push(t).drop_last() == ts);
}

/// Each attachment adds its own line to the table, after the lines of the
/// attachments before it.
pub proof fn law_attachment_lines_append(
    atts: Seq<AttachmentView>,
    a: AttachmentView,
    w: (nat, nat, nat, nat),
)
    ensures
        attachment_lines(atts.push(a), w) == attachment_lines(atts, w) + attachment_line(a, w),
{
    assert(atts.push(a).drop_last() == atts);
}

/// Each attachment adds its own table to `manifest.toml`, after those of the
/// attachments before it.
pub proof fn law_manifest_sections_append(atts: Seq<AttachmentView>, a: AttachmentView)
    ensures
        manifest_sections(atts.push(a)) == manifest_sections(atts) + manifest_section(a),
{
    assert(atts.push(a).drop_last() == atts);
}

/// Each comment adds its own entry to its attachment's table, after the
/// entries of the comments before it.
pub proof fn law_comment_entries_append(key: Seq<char>, cs: Seq<CommentView>, c: CommentView)
    ensures
        comment_entries(key, cs.push(c)) == comment_entries(key, cs) + comment_entry(key, c),
{
    assert(cs.push(c).drop_last() == cs);
}

/// Each comment adds its own block to an attachment's comment listing,
/// after the blocks of the comments before it.
pub proof fn law_comment_blocks_append(cs: Seq<CommentView>, c: CommentView)
    ensures
        comment_blocks(cs.push(c)) == comment_blocks(cs) + comment_block_spec(c),
{
    assert(cs.push(c).drop_last() == cs);
}

/// Every column of the attachment table is as wide as its widest entry over
/// all attachments and no narrower than its heading: each width bounds every
/// attachment's entry, is at least the heading's floor, and is the floor or
/// some attachment's entry.
pub proof fn law_attachment_widths_fit(atts: Seq<AttachmentView>)
    ensures
        ({
            let w = attachment_widths(atts);
            &&& w.0 >= 2 && w.1 >= 4 && w.2 >= 4 && w.3 >= 5
            &&& forall|i: int|
                #![trigger atts[i]]
                0 <= i < atts.len() ==> {
                    &&& decimal(atts[i].id as nat).len() <= w.0
                    &&& atts[i].name.len() <= w.1
                    &&& size_col(atts[i]).len() <= w.2
                    &&& views_width(atts[i]) <= w.3
                }
            &&& (w.0 == 2 || exists|i: int|
                0 <= i < atts.len() && w.0 == decimal((#[trigger] atts[i]).id as nat).len())
            &&& (w.1 == 4 || exists|i: int| 0 <= i < atts.len() && w.1 == (#[trigger] atts[i]).name.len())
            &&& (w.2 == 4 || exists|i: int| 0 <= i < atts.len() && w.2 == size_col(#[trigger] atts[i]).len())
            &&& (w.3 == 5 || exists|i: int| 0 <= i < atts.len() && w.3 == views_width(#[trigger] atts[i]))
        }),
{
    let f0 = |a: AttachmentView| decimal(a.id as nat).len();
    let f1 = |a: AttachmentView| a.name.len();
    let f2 = |a: AttachmentView| size_col(a).len();
    let f3 = |a: AttachmentView| views_width(a);
    lemma_col_width(atts, f0, 2);
    lemma_col_width(atts, f1, 4);
    lemma_col_width(atts, f2, 4);
    lemma_col_width(atts, f3, 5);
    let w = attachment_widths(atts);
    assert(w == (col_width(atts, f0, 2), col_width(atts, f1, 4), col_width(atts, f2, 4), col_width(atts, f3, 5)));
    assert forall|i: int| #![trigger atts[i]] 0 <= i < atts.len() implies {
        &&& decimal(atts[i].id as nat).len() <= w.0
        &&& atts[i].name.len() <= w.1
        &&& size_col(atts[i]).len() <= w.2
        &&& views_width(atts[i]) <= w.3
    } by {
        assert(f0(atts[i]) <= w.0);
        assert(f1(atts[i]) <= w.1);
        assert(f2(atts[i]) <= w.2);
        assert(f3(atts[i]) <= w.3);
    }
    if w.0 != 2 {
        let i = choose|i: int| 0 <= i < atts.len() && f0(#[trigger] atts[i]) == w.0;
        assert(w.0 == decimal(atts[i].id as nat).len());
    }
    if w.1 != 4 {
        let i = choose|i: int| 0 <= i < atts.len() && f1(#[trigger] atts[i]) == w.1;
        assert(w.1 == atts[i].name.len());
    }
    if w.2 != 4 {
        let i = choose|i: int| 0 <= i < atts.len() && f2(#[trigger] atts[i]) == w.2;
        assert(w.2 == size_col(atts[i]).len());
    }
    if w.3 != 5 {
        let i = choose|i: int| 0 <= i < atts.len() && f3(#[trigger] atts[i]) == w.3;
        assert(w.3 == views_width(atts[i]));
    }
}

/// The thread table is its heading, then one line per thread in listing
/// order, all laid out with the same column widths (those of the whole
/// list), then a blank line and the thread count; an empty list prints
/// `No threads found.` instead.
pub proof fn law_threads_table_layout(ts: Seq<ThreadView>)
    ensures
        ts.len() == 0 ==> threads_table_spec(ts) == "No threads found.\n"@,
        ts.len() > 0 ==> threads_table_spec(ts) == threads_heading(thread_widths(ts))
            + thread_lines(ts, thread_widths(ts)) + "\n"@ + decimal(ts.len()) + " threads\n"@,
{
}

/// The attachment table is its heading, then one line per attachment in
/// page order, all laid out with the same column widths (those of the whole
/// list), then a blank line and the attachment count; an empty list prints
/// `No attachments.` instead.
pub proof fn law_attachments_table_layout(atts: Seq<AttachmentView>)
    ensures
        atts.len() == 0 ==> attachments_table_spec(atts) == "No attachments.\n"@,
        atts.len() > 0 ==> attachments_table_spec(atts) == attachments_heading(
            attachment_widths(atts),
        ) + attachment_lines(atts, attachment_widths(atts)) + "\n"@ + decimal(atts.len())
            + " attachments\n"@,
{
}

// ---------------------------------------------------------------------------
// Reply counts in thousands
// ---------------------------------------------------------------------------

proof fn lemma_digits_no_exp_marker(d: Seq<char>)
    requires
        all_digits(d),
    ensures
        exp_marker(d) is None,
    decreases d.len(),
{
    if d.len() > 0 {
        assert(all_digits(d.drop_last()));
        lemma_digits_no_exp_marker(d.drop_last());
        assert(is_digit(d[d.len() - 1]));
    }
}

proof fn lemma_digits_no_dot(d: Seq<char>, i: int)
    requires
        all_digits(d),
        0 <= i,
    ensures
        find_from(d, seq!['.'], i) is None,
    decreases d.len() + 1 - i,
{
    if i + 1 <= d.len() {
        assert(is_digit(d[i]));
        assert(d.subrange(i, i + 1)[0] == d[i]);
        lemma_digits_no_dot(d, i + 1);
    }
}

/// A reply cell reading `<digits>K` (surrounding spaces aside) counts that
/// many thousands replies, whenever the count fits in a `u32`.
pub proof fn law_thousands_reply_count(r: Seq<char>, d: Seq<char>)
    requires
        d.len() > 0,
        all_digits(d),
        trim(r) == d.push('K'),
        decimal_value(d) * 1000 <= u32::MAX,
    ensures
        replies_spec(r) == decimal_value(d) * 1000,
{
    let t = trim(r);
    assert(t.drop_last() == d);
    assert(is_digit(d[0]) && is_digit(d[d.len() - 1]));
    assert(trim_start(d) == d);
    assert(trim(d) == d);
    assert(unsigned_part(d) == d);
    let lower = crate::text::ascii_lower_seq(d);
    reveal_strlit("inf");
    reveal_strlit("infinity");
    reveal_strlit("nan");
    assert(lower[0] == d[0]);
    assert(lower != "inf"@ && lower != "infinity"@ && lower != "nan"@) by {
        assert("inf"@[0] == 'i' && "infinity"@[0] == 'i' && "nan"@[0] == 'n');
    }
    lemma_digits_no_exp_marker(d);
    lemma_digits_no_dot(d, 0);
    assert(decimal_parts(d) == (d, Seq::<char>::empty()));
    assert(d + Seq::<char>::empty() == d);
    assert(all_digits(Seq::<char>::empty()));
    assert(decimal_number(d) == Some((d, d.len() + 3int)));
    assert(pow10(3) == 1000) by {
        reveal_with_fuel(pow10, 4);
    }
    assert(scaled_value(d, d.len() + 3int) == decimal_value(d) * 1000);
    assert(thousands_spec(d) == decimal_value(d) * 1000);
}

} // verus!
