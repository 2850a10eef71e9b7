//! What the command-line tool computes before it prints or writes: tables,
//! TOML manifests and the choices made while installing.

use vstd::prelude::*;
use vstd::string::StrSliceExecFns;

use crate::model::{
    attachment_views, comment_views, opt_view, thread_views, Attachment, AttachmentView, Comment,
    CommentView, Thread, ThreadView,
};
use crate::text::{
    chars_of, chars_eq, decimal, push_all, push_str, rfind_char,
    rfind_char_exec, starts_with, starts_with_chars, string_of, u32_chars, usize_chars,
};

verus! {

broadcast use vstd::string::group_string_axioms;

// ---------------------------------------------------------------------------
// TOML strings and keys
// ---------------------------------------------------------------------------

/// How one character is written inside a TOML basic string.
pub open spec fn escape_char(c: char) -> Seq<char> {
    if c == '\\' {
        seq!['\\', '\\']
    } else if c == '"' {
        seq!['\\', '"']
    } else if c == '\n' {
        seq!['\\', 'n']
    } else if c == '\r' {
        seq!['\\', 'r']
    } else if c == '\t' {
        seq!['\\', 't']
    } else {
        seq![c]
    }
}

/// `s` written as the inside of a TOML basic string.
pub open spec fn escape_spec(s: Seq<char>) -> Seq<char>
    decreases s.len(),
{
    if s.len() == 0 {
        seq![]
    } else {
        escape_char(s[0]) + escape_spec(s.drop_first())
    }
}

/// Escaping distributes over concatenation.
pub proof fn lemma_escape_append(a: Seq<char>, b: Seq<char>)
    ensures
        escape_spec(a + b) == escape_spec(a) + escape_spec(b),
    decreases a.len(),
{
    if a.len() == 0 {
        assert(a + b == b);
    } else {
        assert((a + b).drop_first() == a.drop_first() + b);
        lemma_escape_append(a.drop_first(), b);
        assert(escape_spec(a + b) == escape_char(a[0]) + escape_spec(a.drop_first() + b));
    }
}

fn push_escaped(out: &mut Vec<char>, c: char)
    ensures
        final(out)@ == old(out)@ + escape_char(c),
{
    if c == '\\' {
        out.push('\\');
        out.push('\\');
    } else if c == '"' {
        out.push('\\');
        out.push('"');
    } else if c == '\n' {
        out.push('\\');
        out.push('n');
    } else if c == '\r' {
        out.push('\\');
        out.push('r');
    } else if c == '\t' {
        out.push('\\');
        out.push('t');
    } else {
        out.push(c);
    }
}

fn push_escaped_str(out: &mut Vec<char>, s: &str)
    ensures
        final(out)@ == old(out)@ + escape_spec(s@),
{
    let v = chars_of(s);
    let n = v.len();
    let ghost start = out@;
    assert(v@.take(0) == Seq::<char>::empty());
    for i in 0..n
        invariant
            n == v@.len(),
            out@ == start + escape_spec(v@.take(i as int)),
    {
        push_escaped(out, v[i]);
        proof {
            assert(v@.take(i + 1) == v@.take(i as int) + seq![v@[i as int]]);
            lemma_escape_append(v@.take(i as int), seq![v@[i as int]]);
            assert(seq![v@[i as int]].drop_first() == Seq::<char>::empty());
            assert(escape_spec(Seq::<char>::empty()) == Seq::<char>::empty());
            assert(escape_spec(seq![v@[i as int]]) == escape_char(v@[i as int]) + Seq::<
                char,
            >::empty());
            assert(escape_char(v@[i as int]) + Seq::<char>::empty() == escape_char(v@[i as int]));
        }
    }
    assert(v@.take(n as int) == v@);
}

/// `s` written as the inside of a TOML basic string: backslash, double quote,
/// newline, carriage return and tab are escaped.
pub fn escape_toml(s: &str) -> (r: String)
    ensures
        r@ == escape_spec(s@),
{
    let mut out: Vec<char> = Vec::new();
    push_escaped_str(&mut out, s);
    string_of(out.as_slice())
}

/// Whether `c` may stand in a bare TOML key.
pub open spec fn is_key_char(c: char) -> bool {
    ('a' <= c && c <= 'z') || ('A' <= c && c <= 'Z') || ('0' <= c && c <= '9') || c == '_' || c
        == '-'
}

/// Whether `s` is a bare TOML key: not empty, and only ASCII letters, digits,
/// `_` and `-`.
pub open spec fn is_bare_key(s: Seq<char>) -> bool {
    s.len() > 0 && forall|i: int| 0 <= i < s.len() ==> is_key_char(#[trigger] s[i])
}

/// The TOML table name of an attachment: its file stem when that is a bare
/// key, else its id.
pub open spec fn toml_key_spec(stem: Seq<char>, id: u32) -> Seq<char> {
    if is_bare_key(stem) {
        stem
    } else {
        decimal(id as nat)
    }
}

fn is_bare_key_exec(v: &[char]) -> (r: bool)
    ensures
        r == is_bare_key(v@),
{
    if v.len() == 0 {
        return false;
    }
    let n = v.len();
    for i in 0..n
        invariant
            n == v@.len(),
            forall|k: int| 0 <= k < i ==> is_key_char(#[trigger] v@[k]),
    {
        let c = v[i];
        if !(('a' <= c && c <= 'z') || ('A' <= c && c <= 'Z') || ('0' <= c && c <= '9') || c == '_'
            || c == '-') {
            assert(!is_key_char(v@[i as int]));
            return false;
        }
    }
    true
}

fn toml_key_chars(stem: &[char], id: u32) -> (r: Vec<char>)
    ensures
        r@ == toml_key_spec(stem@, id),
{
    if is_bare_key_exec(stem) {
        let mut out: Vec<char> = Vec::new();
        push_all(&mut out, stem);
        out
    } else {
        u32_chars(id)
    }
}

/// The TOML table name of an attachment whose file stem is `stem`.
pub fn toml_key(stem: &str, id: u32) -> (r: String)
    ensures
        r@ == toml_key_spec(stem@, id),
{
    let v = chars_of(stem);
    let k = toml_key_chars(v.as_slice(), id);
    string_of(k.as_slice())
}

/// A file name without its last extension (all of it when it has no dot).
pub open spec fn file_stem(name: Seq<char>) -> Seq<char> {
    match rfind_char(name, '.') {
        Some(k) => name.take(k),
        None => name,
    }
}

fn file_stem_chars(name: &[char]) -> (r: Vec<char>)
    ensures
        r@ == file_stem(name@),
{
    let end = match rfind_char_exec(name, '.') {
        Some(k) => k,
        None => name.len(),
    };
    let mut out: Vec<char> = Vec::new();
    push_all(&mut out, vstd::slice::slice_subrange(name, 0, end));
    assert(name@.subrange(0, name@.len() as int) == name@);
    out
}

/// The table name of an attachment in the TOML files.
pub open spec fn attachment_key(a: AttachmentView) -> Seq<char> {
    toml_key_spec(file_stem(a.name), a.id)
}

// ---------------------------------------------------------------------------
// Manifest and comments files
// ---------------------------------------------------------------------------

/// A `key = "value"` line.
pub open spec fn string_line(key: Seq<char>, value: Seq<char>) -> Seq<char> {
    key + " = \""@ + escape_spec(value) + "\"\n"@
}

/// A `key = number` line.
pub open spec fn number_line(key: Seq<char>, value: nat) -> Seq<char> {
    key + " = "@ + decimal(value) + "\n"@
}

/// The lines that open both TOML files: the thread's title and id.
pub open spec fn toml_header(title: Seq<char>, id: u32) -> Seq<char> {
    string_line("title"@, title) + number_line("thread_id"@, id as nat)
}

/// An attachment's table in the manifest.
pub open spec fn manifest_section(a: AttachmentView) -> Seq<char> {
    "\n["@ + attachment_key(a) + "]\n"@ + string_line("name"@, a.name) + number_line(
        "attachment_id"@,
        a.id as nat,
    ) + match a.size {
        Some(s) => string_line("size"@, s),
        None => seq![],
    } + match a.views {
        Some(v) => number_line("views"@, v as nat),
        None => seq![],
    }
}

/// The manifest tables of `atts`, in order.
pub open spec fn manifest_sections(atts: Seq<AttachmentView>) -> Seq<char>
    decreases atts.len(),
{
    if atts.len() == 0 {
        seq![]
    } else {
        manifest_sections(atts.drop_last()) + manifest_section(atts.last())
    }
}

/// A thread's `manifest.toml`.
pub open spec fn manifest_spec(title: Seq<char>, id: u32, atts: Seq<AttachmentView>) -> Seq<char> {
    toml_header(title, id) + manifest_sections(atts)
}

fn push_string_line(out: &mut Vec<char>, key: &str, value: &str)
    ensures
        final(out)@ == old(out)@ + string_line(key@, value@),
{
    push_str(out, key);
    push_str(out, " = \"");
    push_escaped_str(out, value);
    push_str(out, "\"\n");
}

fn push_number_line(out: &mut Vec<char>, key: &str, value: u32)
    ensures
        final(out)@ == old(out)@ + number_line(key@, value as nat),
{
    push_str(out, key);
    push_str(out, " = ");
    let d = u32_chars(value);
    push_all(out, d.as_slice());
    push_str(out, "\n");
}

fn push_key(out: &mut Vec<char>, a: &Attachment)
    ensures
        final(out)@ == old(out)@ + attachment_key(a@),
{
    let name = chars_of(a.name.as_str());
    let stem = file_stem_chars(name.as_slice());
    let key = toml_key_chars(stem.as_slice(), a.id);
    push_all(out, key.as_slice());
}

fn manifest_section_chars(a: &Attachment) -> (r: Vec<char>)
    ensures
        r@ == manifest_section(a@),
{
    let mut out: Vec<char> = Vec::new();
    push_str(&mut out, "\n[");
    let ghost s1 = out@;
    push_key(&mut out, a);
    let ghost s2 = out@;
    push_str(&mut out, "]\n");
    let ghost s3 = out@;
    push_string_line(&mut out, "name", a.name.as_str());
    let ghost s4 = out@;
    push_number_line(&mut out, "attachment_id", a.id);
    let ghost s5 = out@;
    match &a.size {
        Some(s) => push_string_line(&mut out, "size", s.as_str()),
        None => {},
    }
    let ghost s6 = out@;
    match a.views {
        Some(v) => push_number_line(&mut out, "views", v),
        None => {},
    }
    assert(s1 == "\n["@);
    assert(s6 == s5 + match a@.size {
        Some(s) => string_line("size"@, s),
        None => seq![],
    });
    assert(out@ == s6 + match a@.views {
        Some(v) => number_line("views"@, v as nat),
        None => seq![],
    });
    out
}

/// A thread's `manifest.toml`: its title and id, then a table per
/// attachment with its name, id, and size and view count when known.
pub fn write_manifest_toml(title: &str, id: u32, attachments: &[Attachment]) -> (r: String)
    ensures
        r@ == manifest_spec(title@, id, crate::model::attachment_views(attachments@)),
{
    let mut out: Vec<char> = Vec::new();
    push_string_line(&mut out, "title", title);
    push_number_line(&mut out, "thread_id", id);
    let ghost atts = crate::model::attachment_views(attachments@);
    let n = attachments.len();
    for i in 0..n
        invariant
            n == attachments@.len(),
            atts == crate::model::attachment_views(attachments@),
            out@ == toml_header(title@, id) + manifest_sections(atts.take(i as int)),
    {
        let a = &attachments[i];
        let ghost before = out@;
        let section = manifest_section_chars(a);
        push_all(&mut out, section.as_slice());
        assert(atts.take(i + 1).drop_last() == atts.take(i as int));
        assert(atts.take(i + 1).last() == a@);
        assert(out@ == before + manifest_section(a@));
    }
    assert(atts.take(n as int) == atts);
    string_of(out.as_slice())
}

/// A comment's entry in `comments.toml`.
pub open spec fn comment_entry(key: Seq<char>, c: CommentView) -> Seq<char> {
    "[["@ + key + ".comments]]\n"@ + string_line("author"@, c.author) + string_line("date"@, c.date)
        + match c.vote {
        Some(v) => string_line("vote"@, v),
        None => seq![],
    } + string_line("body"@, c.body)
}

/// The entries of `cs` under the table `key`, in order.
pub open spec fn comment_entries(key: Seq<char>, cs: Seq<CommentView>) -> Seq<char>
    decreases cs.len(),
{
    if cs.len() == 0 {
        seq![]
    } else {
        comment_entries(key, cs.drop_last()) + comment_entry(key, cs.last())
    }
}

/// An attachment's table in `comments.toml`; nothing when it has no
/// comments.
pub open spec fn comments_section(a: AttachmentView, cs: Seq<CommentView>) -> Seq<char> {
    if cs.len() == 0 {
        seq![]
    } else {
        "\n["@ + attachment_key(a) + "]\n"@ + comment_entries(attachment_key(a), cs)
    }
}

/// The view of an attachment with its comments.
pub open spec fn item_view(item: (&Attachment, Vec<Comment>)) -> (AttachmentView, Seq<CommentView>) {
    (item.0@, crate::model::comment_views(item.1@))
}

/// The tables of `items`, in order.
pub open spec fn comments_sections(items: Seq<(AttachmentView, Seq<CommentView>)>) -> Seq<char>
    decreases items.len(),
{
    if items.len() == 0 {
        seq![]
    } else {
        comments_sections(items.drop_last()) + comments_section(items.last().0, items.last().1)
    }
}

/// A thread's `comments.toml`.
pub open spec fn comments_toml_spec(
    title: Seq<char>,
    id: u32,
    items: Seq<(AttachmentView, Seq<CommentView>)>,
) -> Seq<char> {
    toml_header(title, id) + comments_sections(items)
}

fn comment_entry_chars(key: &[char], c: &Comment) -> (r: Vec<char>)
    ensures
        r@ == comment_entry(key@, c@),
{
    let mut out: Vec<char> = Vec::new();
    push_str(&mut out, "[[");
    let ghost s1 = out@;
    push_all(&mut out, key);
    push_str(&mut out, ".comments]]\n");
    push_string_line(&mut out, "author", c.author.as_str());
    push_string_line(&mut out, "date", c.date.as_str());
    let ghost s5 = out@;
    match &c.vote {
        Some(v) => push_string_line(&mut out, "vote", v.as_str()),
        None => {},
    }
    let ghost s6 = out@;
    push_string_line(&mut out, "body", c.body.as_str());
    assert(s1 == "[["@);
    assert(s6 == s5 + match c@.vote {
        Some(v) => string_line("vote"@, v),
        None => seq![],
    });
    out
}

fn push_comment_entries(out: &mut Vec<char>, key: &[char], comments: &Vec<Comment>)
    ensures
        final(out)@ == old(out)@ + comment_entries(key@, crate::model::comment_views(comments@)),
{
    let ghost cs = crate::model::comment_views(comments@);
    let ghost start = out@;
    let n = comments.len();
    for j in 0..n
        invariant
            n == comments@.len(),
            cs == crate::model::comment_views(comments@),
            out@ == start + comment_entries(key@, cs.take(j as int)),
    {
        let c = &comments[j];
        let ghost before = out@;
        let entry = comment_entry_chars(key, c);
        push_all(out, entry.as_slice());
        assert(cs.take(j + 1).drop_last() == cs.take(j as int));
        assert(cs.take(j + 1).last() == c@);
        assert(out@ == before + comment_entry(key@, c@));
    }
    assert(cs.take(n as int) == cs);
}

/// A thread's `comments.toml`: its title and id, then, for each attachment
/// with comments, a table holding an entry per comment (author, date, vote
/// when there is one, body).
pub fn write_comments_toml(title: &str, id: u32, items: &[(&Attachment, Vec<Comment>)]) -> (r:
    String)
    ensures
        r@ == comments_toml_spec(title@, id, items@.map_values(|it: (&Attachment, Vec<Comment>)| item_view(it))),
{
    let mut out: Vec<char> = Vec::new();
    push_string_line(&mut out, "title", title);
    push_number_line(&mut out, "thread_id", id);
    let ghost its = items@.map_values(|it: (&Attachment, Vec<Comment>)| item_view(it));
    let n = items.len();
    for i in 0..n
        invariant
            n == items@.len(),
            its == items@.map_values(|it: (&Attachment, Vec<Comment>)| item_view(it)),
            out@ == toml_header(title@, id) + comments_sections(its.take(i as int)),
    {
        let (a, comments) = &items[i];
        let ghost before = out@;
        assert(its.take(i + 1).drop_last() == its.take(i as int));
        assert(its.take(i + 1).last() == item_view(items@[i as int]));
        if comments.len() > 0 {
            push_str(&mut out, "\n[");
            let name = chars_of(a.name.as_str());
            let stem = file_stem_chars(name.as_slice());
            let key = toml_key_chars(stem.as_slice(), a.id);
            push_all(&mut out, key.as_slice());
            push_str(&mut out, "]\n");
            push_comment_entries(&mut out, key.as_slice(), comments);
        }
        assert(out@ == before + comments_section(a@, crate::model::comment_views(comments@)));
    }
    assert(its.take(n as int) == its);
    string_of(out.as_slice())
}

// ---------------------------------------------------------------------------
// Tables
// ---------------------------------------------------------------------------

/// `k` spaces.
pub open spec fn spaces(k: nat) -> Seq<char> {
    Seq::new(k, |_i: int| ' ')
}

/// `s` padded with spaces on the right to `w` characters (`{:<w$}`).
pub open spec fn pad_right(s: Seq<char>, w: nat) -> Seq<char> {
    if s.len() < w {
        s + spaces((w - s.len()) as nat)
    } else {
        s
    }
}

/// `s` padded with spaces on the left to `w` characters (`{:>w$}`).
pub open spec fn pad_left(s: Seq<char>, w: nat) -> Seq<char> {
    if s.len() < w {
        spaces((w - s.len()) as nat) + s
    } else {
        s
    }
}

fn push_spaces(out: &mut Vec<char>, k: usize)
    ensures
        final(out)@ == old(out)@ + spaces(k as nat),
{
    let ghost start = out@;
    for i in 0..k
        invariant
            out@ == start + spaces(i as nat),
    {
        out.push(' ');
        assert(spaces((i + 1) as nat) == spaces(i as nat).push(' '));
    }
}

fn push_pad_right(out: &mut Vec<char>, s: &[char], w: usize)
    ensures
        final(out)@ == old(out)@ + pad_right(s@, w as nat),
{
    push_all(out, s);
    if s.len() < w {
        push_spaces(out, w - s.len());
    }
}

fn push_pad_left(out: &mut Vec<char>, s: &[char], w: usize)
    ensures
        final(out)@ == old(out)@ + pad_left(s@, w as nat),
{
    let ghost start = out@;
    if s.len() < w {
        push_spaces(out, w - s.len());
    }
    push_all(out, s);
    assert(out@ == start + pad_left(s@, w as nat));
}

/// The widest of `f` over `xs`, and at least `floor`.
pub open spec fn col_width<T>(xs: Seq<T>, f: spec_fn(T) -> nat, floor: nat) -> nat
    decreases xs.len(),
{
    if xs.len() == 0 {
        floor
    } else {
        let m = col_width(xs.drop_last(), f, floor);
        if f(xs.last()) > m {
            f(xs.last())
        } else {
            m
        }
    }
}

/// The label printed before a thread prefix that names an exam.
pub const EXAM_LABEL: &'static str = "Đề Thi ";

/// A thread prefix without its leading `Đề Thi `.
pub open spec fn short_prefix_spec(prefix: Seq<char>) -> Seq<char> {
    if starts_with(prefix, EXAM_LABEL@) {
        prefix.skip(EXAM_LABEL@.len() as int)
    } else {
        prefix
    }
}

fn short_prefix_chars(prefix: &[char]) -> (r: Vec<char>)
    ensures
        r@ == short_prefix_spec(prefix@),
{
    let label = chars_of(EXAM_LABEL);
    let mut out: Vec<char> = Vec::new();
    if starts_with_chars(prefix, label.as_slice()) {
        let rest = vstd::slice::slice_subrange(prefix, label.len(), prefix.len());
        assert(rest@ == prefix@.skip(label@.len() as int));
        push_all(&mut out, rest);
    } else {
        push_all(&mut out, prefix);
    }
    out
}

/// A thread prefix without its leading `Đề Thi `.
pub fn short_prefix(prefix: &str) -> (r: &str)
    ensures
        r@ == short_prefix_spec(prefix@),
{
    let v = chars_of(prefix);
    let label = chars_of(EXAM_LABEL);
    let n = prefix.unicode_len();
    if starts_with_chars(v.as_slice(), label.as_slice()) {
        prefix.substring_char(label.len(), n)
    } else {
        assert(prefix@.subrange(0, n as int) == prefix@);
        prefix.substring_char(0, n)
    }
}

/// Resets the terminal colour.
pub const RESET: &'static str = "\x1b[0m";

/// The terminal colour of a prefix label's class (none for unknown ones).
pub open spec fn color_spec(class: Option<Seq<char>>) -> Seq<char> {
    let c = match class {
        Some(c) => c,
        None => seq![],
    };
    if c == "label--red"@ {
        "\x1b[31m"@
    } else if c == "label--orange"@ {
        "\x1b[33m"@
    } else if c == "label--green"@ {
        "\x1b[32m"@
    } else if c == "label--blue"@ {
        "\x1b[34m"@
    } else if c == "label--purple"@ {
        "\x1b[35m"@
    } else if c == "label--gray"@ {
        "\x1b[90m"@
    } else {
        ""@
    }
}

fn is_class(c: &[char], name: &str) -> (r: bool)
    ensures
        r == (c@ == name@),
{
    let n = chars_of(name);
    chars_eq(c, n.as_slice())
}

fn color_for_chars(c: &[char]) -> (r: &'static str)
    ensures
        r@ == color_spec(Some(c@)),
{
    if is_class(c, "label--red") {
        "\x1b[31m"
    } else if is_class(c, "label--orange") {
        "\x1b[33m"
    } else if is_class(c, "label--green") {
        "\x1b[32m"
    } else if is_class(c, "label--blue") {
        "\x1b[34m"
    } else if is_class(c, "label--purple") {
        "\x1b[35m"
    } else if is_class(c, "label--gray") {
        "\x1b[90m"
    } else {
        ""
    }
}

/// The terminal colour of a prefix label's class.
pub fn color_for(prefix_class: Option<&str>) -> (r: &'static str)
    ensures
        r@ == color_spec(
            match prefix_class {
                Some(c) => Some(c@),
                None => None,
            },
        ),
{
    match prefix_class {
        Some(c) => {
            let v = chars_of(c);
            color_for_chars(v.as_slice())
        },
        None => {
            let empty: Vec<char> = Vec::new();
            let r = color_for_chars(empty.as_slice());
            assert(empty@ == Seq::<char>::empty());
            r
        },
    }
}

/// The prefix column of a thread: its short prefix, or `-`.
pub open spec fn prefix_col(t: ThreadView) -> Seq<char> {
    short_prefix_spec(
        match t.prefix {
            Some(p) => p,
            None => "-"@,
        },
    )
}

/// The column widths of a thread table: id, prefix, title, author, replies.
pub open spec fn thread_widths(ts: Seq<ThreadView>) -> (nat, nat, nat, nat, nat) {
    (
        col_width(ts, |t: ThreadView| decimal(t.id as nat).len(), 2),
        col_width(ts, |t: ThreadView| prefix_col(t).len(), 6),
        col_width(ts, |t: ThreadView| t.title.len(), 5),
        col_width(ts, |t: ThreadView| t.author.len(), 6),
        col_width(ts, |t: ThreadView| decimal(t.replies as nat).len(), 7),
    )
}

/// The heading line of a thread table.
pub open spec fn threads_heading(w: (nat, nat, nat, nat, nat)) -> Seq<char> {
    pad_right("ID"@, w.0) + "  "@ + pad_right("PREFIX"@, w.1) + "  "@ + pad_right("TITLE"@, w.2)
        + "  "@ + pad_right("AUTHOR"@, w.3) + "  "@ + pad_right("REPLIES"@, w.4) + "\n"@
}

/// A thread's line: id, coloured prefix, title, author, right-aligned
/// replies.
pub open spec fn thread_line(t: ThreadView, w: (nat, nat, nat, nat, nat)) -> Seq<char> {
    pad_right(decimal(t.id as nat), w.0) + "  "@ + color_spec(t.prefix_class) + pad_right(
        prefix_col(t),
        w.1,
    ) + RESET@ + "  "@ + pad_right(t.title, w.2) + "  "@ + pad_right(t.author, w.3) + "  "@
        + pad_left(decimal(t.replies as nat), w.4) + "\n"@
}

/// The lines of `ts`, in order.
pub open spec fn thread_lines(ts: Seq<ThreadView>, w: (nat, nat, nat, nat, nat)) -> Seq<char>
    decreases ts.len(),
{
    if ts.len() == 0 {
        seq![]
    } else {
        thread_lines(ts.drop_last(), w) + thread_line(ts.last(), w)
    }
}

/// The thread table the `search` command prints.
pub open spec fn threads_table_spec(ts: Seq<ThreadView>) -> Seq<char> {
    if ts.len() == 0 {
        "No threads found.\n"@
    } else {
        threads_heading(thread_widths(ts)) + thread_lines(ts, thread_widths(ts)) + "\n"@ + decimal(
            ts.len(),
        ) + " threads\n"@
    }
}

fn thread_prefix_chars(t: &Thread) -> (r: Vec<char>)
    ensures
        r@ == prefix_col(t@),
{
    match &t.prefix {
        Some(p) => {
            let v = chars_of(p.as_str());
            short_prefix_chars(v.as_slice())
        },
        None => {
            let v = chars_of("-");
            short_prefix_chars(v.as_slice())
        },
    }
}

fn thread_widths_exec(threads: &[Thread]) -> (r: (usize, usize, usize, usize, usize))
    ensures
        (r.0 as nat, r.1 as nat, r.2 as nat, r.3 as nat, r.4 as nat) == thread_widths(
            thread_views(threads@),
        ),
{
    let ghost ts = thread_views(threads@);
    let ghost f0 = |t: ThreadView| decimal(t.id as nat).len();
    let ghost f1 = |t: ThreadView| prefix_col(t).len();
    let ghost f2 = |t: ThreadView| t.title.len();
    let ghost f3 = |t: ThreadView| t.author.len();
    let ghost f4 = |t: ThreadView| decimal(t.replies as nat).len();
    let mut w0: usize = 2;
    let mut w1: usize = 6;
    let mut w2: usize = 5;
    let mut w3: usize = 6;
    let mut w4: usize = 7;
    let n = threads.len();
    for i in 0..n
        invariant
            n == threads@.len(),
            ts == thread_views(threads@),
            forall|t: ThreadView| #[trigger] f0(t) == decimal(t.id as nat).len(),
            forall|t: ThreadView| #[trigger] f1(t) == prefix_col(t).len(),
            forall|t: ThreadView| #[trigger] f2(t) == t.title.len(),
            forall|t: ThreadView| #[trigger] f3(t) == t.author.len(),
            forall|t: ThreadView| #[trigger] f4(t) == decimal(t.replies as nat).len(),
            w0 == col_width(ts.take(i as int), f0, 2),
            w1 == col_width(ts.take(i as int), f1, 6),
            w2 == col_width(ts.take(i as int), f2, 5),
            w3 == col_width(ts.take(i as int), f3, 6),
            w4 == col_width(ts.take(i as int), f4, 7),
    {
        let t = &threads[i];
        assert(ts.take(i + 1).drop_last() == ts.take(i as int));
        assert(ts.take(i + 1).last() == t@);
        let d0 = u32_chars(t.id);
        let l0 = d0.len();
        let d1 = thread_prefix_chars(t);
        let l1 = d1.len();
        let l2 = chars_of(t.title.as_str()).len();
        let l3 = chars_of(t.author.as_str()).len();
        let l4 = u32_chars(t.replies).len();
        assert(l0 == f0(t@));
        assert(l1 == f1(t@));
        assert(l2 == f2(t@));
        assert(l3 == f3(t@));
        assert(l4 == f4(t@));
        if l0 > w0 {
            w0 = l0;
        }
        if l1 > w1 {
            w1 = l1;
        }
        if l2 > w2 {
            w2 = l2;
        }
        if l3 > w3 {
            w3 = l3;
        }
        if l4 > w4 {
            w4 = l4;
        }
    }
    assert(ts.take(n as int) == ts);
    (w0, w1, w2, w3, w4)
}

fn thread_line_chars(t: &Thread, w: (usize, usize, usize, usize, usize)) -> (r: Vec<char>)
    ensures
        r@ == thread_line(t@, (w.0 as nat, w.1 as nat, w.2 as nat, w.3 as nat, w.4 as nat)),
{
    let mut out: Vec<char> = Vec::new();
    let id = u32_chars(t.id);
    push_pad_right(&mut out, id.as_slice(), w.0);
    push_str(&mut out, "  ");
    let color = match &t.prefix_class {
        Some(c) => color_for(Some(c.as_str())),
        None => color_for(None),
    };
    push_str(&mut out, color);
    let prefix = thread_prefix_chars(t);
    push_pad_right(&mut out, prefix.as_slice(), w.1);
    push_str(&mut out, RESET);
    push_str(&mut out, "  ");
    let title = chars_of(t.title.as_str());
    push_pad_right(&mut out, title.as_slice(), w.2);
    push_str(&mut out, "  ");
    let author = chars_of(t.author.as_str());
    push_pad_right(&mut out, author.as_slice(), w.3);
    push_str(&mut out, "  ");
    let replies = u32_chars(t.replies);
    push_pad_left(&mut out, replies.as_slice(), w.4);
    push_str(&mut out, "\n");
    out
}

/// The thread table the `search` command prints: a heading, a line per
/// thread with columns as wide as their widest entry, and the count.
pub fn threads_table(threads: &[Thread]) -> (r: String)
    ensures
        r@ == threads_table_spec(thread_views(threads@)),
{
    let ghost ts = thread_views(threads@);
    let n = threads.len();
    if n == 0 {
        return string_of(chars_of("No threads found.\n").as_slice());
    }
    let w = thread_widths_exec(threads);
    let ghost ws = (w.0 as nat, w.1 as nat, w.2 as nat, w.3 as nat, w.4 as nat);
    let mut out: Vec<char> = Vec::new();
    push_pad_right(&mut out, chars_of("ID").as_slice(), w.0);
    push_str(&mut out, "  ");
    push_pad_right(&mut out, chars_of("PREFIX").as_slice(), w.1);
    push_str(&mut out, "  ");
    push_pad_right(&mut out, chars_of("TITLE").as_slice(), w.2);
    push_str(&mut out, "  ");
    push_pad_right(&mut out, chars_of("AUTHOR").as_slice(), w.3);
    push_str(&mut out, "  ");
    push_pad_right(&mut out, chars_of("REPLIES").as_slice(), w.4);
    push_str(&mut out, "\n");
    let ghost head = out@;
    assert(head == threads_heading(ws));
    for i in 0..n
        invariant
            n == threads@.len(),
            ts == thread_views(threads@),
            out@ == head + thread_lines(ts.take(i as int), ws),
            ws == (w.0 as nat, w.1 as nat, w.2 as nat, w.3 as nat, w.4 as nat),
    {
        let line = thread_line_chars(&threads[i], w);
        push_all(&mut out, line.as_slice());
        assert(ts.take(i + 1).drop_last() == ts.take(i as int));
        assert(ts.take(i + 1).last() == threads@[i as int]@);
    }
    assert(ts.take(n as int) == ts);
    push_str(&mut out, "\n");
    let count = usize_chars(n);
    push_all(&mut out, count.as_slice());
    push_str(&mut out, " threads\n");
    string_of(out.as_slice())
}

/// The size column of an attachment: its size, or `-`.
pub open spec fn size_col(a: AttachmentView) -> Seq<char> {
    match a.size {
        Some(s) => s,
        None => "-"@,
    }
}

/// The views column of an attachment: its view count, or `-`.
pub open spec fn views_col(a: AttachmentView) -> Seq<char> {
    match a.views {
        Some(v) => decimal(v as nat),
        None => "-"@,
    }
}

/// The width an attachment's view count claims: that of its number, 0 when
/// unknown.
pub open spec fn views_width(a: AttachmentView) -> nat {
    match a.views {
        Some(v) => decimal(v as nat).len(),
        None => decimal(0).len(),
    }
}

/// The column widths of an attachment table: id, name, size, views.
pub open spec fn attachment_widths(atts: Seq<AttachmentView>) -> (nat, nat, nat, nat) {
    (
        col_width(atts, |a: AttachmentView| decimal(a.id as nat).len(), 2),
        col_width(atts, |a: AttachmentView| a.name.len(), 4),
        col_width(atts, |a: AttachmentView| size_col(a).len(), 4),
        col_width(atts, |a: AttachmentView| views_width(a), 5),
    )
}

/// The heading line of an attachment table.
pub open spec fn attachments_heading(w: (nat, nat, nat, nat)) -> Seq<char> {
    pad_right("ID"@, w.0) + "  "@ + pad_right("NAME"@, w.1) + "  "@ + pad_right("SIZE"@, w.2)
        + "  "@ + pad_right("VIEWS"@, w.3) + "\n"@
}

/// An attachment's line: id, name, size, views.
pub open spec fn attachment_line(a: AttachmentView, w: (nat, nat, nat, nat)) -> Seq<char> {
    pad_right(decimal(a.id as nat), w.0) + "  "@ + pad_right(a.name, w.1) + "  "@ + pad_right(
        size_col(a),
        w.2,
    ) + "  "@ + pad_right(views_col(a), w.3) + "\n"@
}

/// The lines of `atts`, in order.
pub open spec fn attachment_lines(atts: Seq<AttachmentView>, w: (nat, nat, nat, nat)) -> Seq<char>
    decreases atts.len(),
{
    if atts.len() == 0 {
        seq![]
    } else {
        attachment_lines(atts.drop_last(), w) + attachment_line(atts.last(), w)
    }
}

/// The attachment table the `thread` command prints.
pub open spec fn attachments_table_spec(atts: Seq<AttachmentView>) -> Seq<char> {
    if atts.len() == 0 {
        "No attachments.\n"@
    } else {
        attachments_heading(attachment_widths(atts)) + attachment_lines(
            atts,
            attachment_widths(atts),
        ) + "\n"@ + decimal(atts.len()) + " attachments\n"@
    }
}

fn size_col_chars(a: &Attachment) -> (r: Vec<char>)
    ensures
        r@ == size_col(a@),
{
    match &a.size {
        Some(s) => chars_of(s.as_str()),
        None => chars_of("-"),
    }
}

fn views_col_chars(a: &Attachment) -> (r: Vec<char>)
    ensures
        r@ == views_col(a@),
{
    match a.views {
        Some(v) => u32_chars(v),
        None => chars_of("-"),
    }
}

fn attachment_widths_exec(atts: &[Attachment]) -> (r: (usize, usize, usize, usize))
    ensures
        (r.0 as nat, r.1 as nat, r.2 as nat, r.3 as nat) == attachment_widths(
            attachment_views(atts@),
        ),
{
    let ghost avs = attachment_views(atts@);
    let ghost f0 = |a: AttachmentView| decimal(a.id as nat).len();
    let ghost f1 = |a: AttachmentView| a.name.len();
    let ghost f2 = |a: AttachmentView| size_col(a).len();
    let ghost f3 = |a: AttachmentView| views_width(a);
    let mut w0: usize = 2;
    let mut w1: usize = 4;
    let mut w2: usize = 4;
    let mut w3: usize = 5;
    let n = atts.len();
    for i in 0..n
        invariant
            n == atts@.len(),
            avs == attachment_views(atts@),
            forall|a: AttachmentView| #[trigger] f0(a) == decimal(a.id as nat).len(),
            forall|a: AttachmentView| #[trigger] f1(a) == a.name.len(),
            forall|a: AttachmentView| #[trigger] f2(a) == size_col(a).len(),
            forall|a: AttachmentView| #[trigger] f3(a) == views_width(a),
            w0 == col_width(avs.take(i as int), f0, 2),
            w1 == col_width(avs.take(i as int), f1, 4),
            w2 == col_width(avs.take(i as int), f2, 4),
            w3 == col_width(avs.take(i as int), f3, 5),
    {
        let a = &atts[i];
        assert(avs.take(i + 1).drop_last() == avs.take(i as int));
        assert(avs.take(i + 1).last() == a@);
        let d0 = u32_chars(a.id);
        let d1 = chars_of(a.name.as_str());
        let d2 = size_col_chars(a);
        let d3 = match a.views {
            Some(v) => u32_chars(v),
            None => u32_chars(0),
        };
        let l0 = d0.len();
        let l1 = d1.len();
        let l2 = d2.len();
        let l3 = d3.len();
        assert(l0 == f0(a@));
        assert(l1 == f1(a@));
        assert(l2 == f2(a@));
        assert(l3 == f3(a@));
        if l0 > w0 {
            w0 = l0;
        }
        if l1 > w1 {
            w1 = l1;
        }
        if l2 > w2 {
            w2 = l2;
        }
        if l3 > w3 {
            w3 = l3;
        }
    }
    assert(avs.take(n as int) == avs);
    (w0, w1, w2, w3)
}

fn attachment_line_chars(a: &Attachment, w: (usize, usize, usize, usize)) -> (r: Vec<char>)
    ensures
        r@ == attachment_line(a@, (w.0 as nat, w.1 as nat, w.2 as nat, w.3 as nat)),
{
    let mut out: Vec<char> = Vec::new();
    let id = u32_chars(a.id);
    push_pad_right(&mut out, id.as_slice(), w.0);
    push_str(&mut out, "  ");
    let name = chars_of(a.name.as_str());
    push_pad_right(&mut out, name.as_slice(), w.1);
    push_str(&mut out, "  ");
    let size = size_col_chars(a);
    push_pad_right(&mut out, size.as_slice(), w.2);
    push_str(&mut out, "  ");
    let views = views_col_chars(a);
    push_pad_right(&mut out, views.as_slice(), w.3);
    push_str(&mut out, "\n");
    out
}

/// The attachment table the `thread` command prints: a heading, a line per
/// attachment with columns as wide as their widest entry, and the count.
pub fn attachments_table(attachments: &[Attachment]) -> (r: String)
    ensures
        r@ == attachments_table_spec(attachment_views(attachments@)),
{
    let ghost avs = attachment_views(attachments@);
    let n = attachments.len();
    if n == 0 {
        return string_of(chars_of("No attachments.\n").as_slice());
    }
    let w = attachment_widths_exec(attachments);
    let ghost ws = (w.0 as nat, w.1 as nat, w.2 as nat, w.3 as nat);
    let mut out: Vec<char> = Vec::new();
    push_pad_right(&mut out, chars_of("ID").as_slice(), w.0);
    push_str(&mut out, "  ");
    push_pad_right(&mut out, chars_of("NAME").as_slice(), w.1);
    push_str(&mut out, "  ");
    push_pad_right(&mut out, chars_of("SIZE").as_slice(), w.2);
    push_str(&mut out, "  ");
    push_pad_right(&mut out, chars_of("VIEWS").as_slice(), w.3);
    push_str(&mut out, "\n");
    let ghost head = out@;
    assert(head == attachments_heading(ws));
    for i in 0..n
        invariant
            n == attachments@.len(),
            avs == attachment_views(attachments@),
            out@ == head + attachment_lines(avs.take(i as int), ws),
            ws == (w.0 as nat, w.1 as nat, w.2 as nat, w.3 as nat),
    {
        let line = attachment_line_chars(&attachments[i], w);
        push_all(&mut out, line.as_slice());
        assert(avs.take(i + 1).drop_last() == avs.take(i as int));
        assert(avs.take(i + 1).last() == attachments@[i as int]@);
    }
    assert(avs.take(n as int) == avs);
    push_str(&mut out, "\n");
    let count = usize_chars(n);
    push_all(&mut out, count.as_slice());
    push_str(&mut out, " attachments\n");
    string_of(out.as_slice())
}

/// The note printed after a comment's author: ` [vote <v>]` for a
/// non-empty vote.
pub open spec fn vote_suffix_spec(vote: Option<Seq<char>>) -> Seq<char> {
    match vote {
        Some(v) => if v.len() > 0 {
            " [vote "@ + v + "]"@
        } else {
            seq![]
        },
        None => seq![],
    }
}

/// The note printed after a comment's author.
pub fn vote_suffix(vote: Option<&str>) -> (r: String)
    ensures
        r@ == vote_suffix_spec(
            match vote {
                Some(v) => Some(v@),
                None => None,
            },
        ),
{
    let mut out: Vec<char> = Vec::new();
    match vote {
        Some(v) => {
            let vc = chars_of(v);
            if vc.len() > 0 {
                push_str(&mut out, " [vote ");
                push_all(&mut out, vc.as_slice());
                push_str(&mut out, "]");
            }
        },
        None => {},
    }
    string_of(out.as_slice())
}

/// `s` with `indent` after each of its newlines.
pub open spec fn indent_lines(s: Seq<char>, indent: Seq<char>) -> Seq<char>
    decreases s.len(),
{
    if s.len() == 0 {
        seq![]
    } else {
        indent_lines(s.drop_last(), indent) + if s.last() == '\n' {
            seq!['\n'] + indent
        } else {
            seq![s.last()]
        }
    }
}

/// The lines shown for one comment: its author, date and vote note, then
/// its body, every line of it indented by four spaces.
pub open spec fn comment_block_spec(c: CommentView) -> Seq<char> {
    "  "@ + c.author + " ("@ + c.date + ")"@ + vote_suffix_spec(c.vote) + "\n    "@
        + indent_lines(c.body, "    "@) + "\n"@
}

/// The blocks of the comments `cs`, in order.
pub open spec fn comment_blocks(cs: Seq<CommentView>) -> Seq<char>
    decreases cs.len(),
{
    if cs.len() == 0 {
        seq![]
    } else {
        comment_blocks(cs.drop_last()) + comment_block_spec(cs.last())
    }
}

/// The comments of an attachment as shown: a blank line, the attachment's
/// name and id, then each comment's block.
pub open spec fn comments_listing_spec(a: AttachmentView, cs: Seq<CommentView>) -> Seq<char> {
    "\n"@ + a.name + " (attachment "@ + decimal(a.id as nat) + ")\n"@ + comment_blocks(cs)
}

fn push_indented(out: &mut Vec<char>, s: &[char])
    ensures
        final(out)@ == old(out)@ + indent_lines(s@, "    "@),
{
    let ghost start = out@;
    let n = s.len();
    assert(s@.take(0) =~= Seq::<char>::empty());
    for i in 0..n
        invariant
            n == s@.len(),
            out@ == start + indent_lines(s@.take(i as int), "    "@),
    {
        assert(s@.take(i + 1).drop_last() =~= s@.take(i as int));
        assert(s@.take(i + 1).last() == s@[i as int]);
        if s[i] == '\n' {
            out.push('\n');
            push_str(out, "    ");
        } else {
            out.push(s[i]);
        }
        assert(out@ =~= start + indent_lines(s@.take(i + 1), "    "@));
    }
    assert(s@.take(n as int) =~= s@);
}

/// The comments of attachment `a` as the `thread` command shows them.
pub fn comments_listing(a: &Attachment, comments: &[Comment]) -> (r: String)
    ensures
        r@ == comments_listing_spec(a@, comment_views(comments@)),
{
    let ghost cs = comment_views(comments@);
    let mut out: Vec<char> = Vec::new();
    push_str(&mut out, "\n");
    push_str(&mut out, a.name.as_str());
    push_str(&mut out, " (attachment ");
    let digits = u32_chars(a.id);
    push_all(&mut out, digits.as_slice());
    push_str(&mut out, ")\n");
    let ghost head = out@;
    assert(head =~= "\n"@ + a@.name + " (attachment "@ + decimal(a@.id as nat) + ")\n"@);
    let n = comments.len();
    assert(cs.take(0) =~= Seq::<CommentView>::empty());
    for i in 0..n
        invariant
            n == comments@.len(),
            cs == comment_views(comments@),
            out@ == head + comment_blocks(cs.take(i as int)),
    {
        let c = &comments[i];
        assert(cs.take(i + 1).drop_last() =~= cs.take(i as int));
        assert(cs.take(i + 1).last() == c@);
        let ghost before = out@;
        push_str(&mut out, "  ");
        push_str(&mut out, c.author.as_str());
        push_str(&mut out, " (");
        push_str(&mut out, c.date.as_str());
        push_str(&mut out, ")");
        let note = match &c.vote {
            Some(v) => vote_suffix(Some(v.as_str())),
            None => vote_suffix(None),
        };
        push_str(&mut out, note.as_str());
        push_str(&mut out, "\n    ");
        let body = chars_of(c.body.as_str());
        push_indented(&mut out, body.as_slice());
        push_str(&mut out, "\n");
        assert(out@ =~= before + comment_block_spec(c@));
    }
    assert(cs.take(n as int) =~= cs);
    string_of(out.as_slice())
}

// ---------------------------------------------------------------------------
// Command arguments
// ---------------------------------------------------------------------------

/// The thread an `install` target names: the number after its last dot (a
/// thread address `<slug>.<id>`), else the whole target as a number; `None`
/// for a subject code.
pub open spec fn install_target_spec(target: Seq<char>) -> Option<u32> {
    let dotted = match rfind_char(target, '.') {
        Some(k) => crate::text::parse_u32_spec(target.skip(k + 1)),
        None => None,
    };
    match dotted {
        Some(id) => Some(id),
        None => crate::text::parse_u32_spec(target),
    }
}

/// The thread an `install` target names, if it names one.
pub fn install_target_id(target: &str) -> (r: Option<u32>)
    ensures
        r == install_target_spec(target@),
{
    let v = chars_of(target);
    let n = v.len();
    let dotted = match rfind_char_exec(v.as_slice(), '.') {
        Some(k) => {
            let rest = vstd::slice::slice_subrange(v.as_slice(), k + 1, n);
            assert(rest@ == v@.skip(k + 1));
            crate::text::parse_u32(rest)
        },
        None => None,
    };
    match dotted {
        Some(id) => Some(id),
        None => crate::text::parse_u32(v.as_slice()),
    }
}

/// `s` in lower case, by Unicode's full case mapping.
pub uninterp spec fn lower_case(s: Seq<char>) -> Seq<char>;

/// `str::to_lowercase`: claims only that the result is the named function of
/// `s`.
#[verifier::external_body]
pub(crate) fn to_lowercase(s: &str) -> (r: String)
    ensures
        r@ == lower_case(s@),
{
    s.to_lowercase()
}

/// Whether a thread with prefix `prefix` passes the `search` filter: the
/// filter, lower-cased, occurs in the lower-cased prefix (an absent prefix
/// counts as empty).
pub open spec fn prefix_matches_spec(prefix: Option<Seq<char>>, filter: Seq<char>) -> bool {
    crate::text::contains(
        lower_case(
            match prefix {
                Some(p) => p,
                None => ""@,
            },
        ),
        lower_case(filter),
    )
}

/// Whether a thread with prefix `prefix` passes the `search` filter.
pub fn prefix_matches(prefix: Option<&str>, filter: &str) -> (r: bool)
    ensures
        r == prefix_matches_spec(
            match prefix {
                Some(p) => Some(p@),
                None => None,
            },
            filter@,
        ),
{
    let lp = match prefix {
        Some(p) => to_lowercase(p),
        None => to_lowercase(""),
    };
    let lf = to_lowercase(filter);
    let a = chars_of(lp.as_str());
    let b = chars_of(lf.as_str());
    crate::text::contains_chars(a.as_slice(), b.as_slice())
}

/// The threads of `threads` that pass the `search` filter, in order.
pub open spec fn filter_threads_spec(ts: Seq<ThreadView>, filter: Seq<char>) -> Seq<ThreadView>
    decreases ts.len(),
{
    if ts.len() == 0 {
        seq![]
    } else {
        let prev = filter_threads_spec(ts.drop_last(), filter);
        if prefix_matches_spec(ts.last().prefix, filter) {
            prev.push(ts.last())
        } else {
            prev
        }
    }
}

/// Keeps the threads that pass the `search` filter, in order.
pub fn filter_threads(threads: Vec<Thread>, filter: &str) -> (r: Vec<Thread>)
    ensures
        thread_views(r@) == filter_threads_spec(thread_views(threads@), filter@),
{
    let ghost ts = thread_views(threads@);
    let mut kept: Vec<Thread> = Vec::new();
    let mut rest = threads;
    // Walk from the back so that each thread can be moved out.
    let mut back: Vec<Thread> = Vec::new();
    while rest.len() > 0
        invariant
            thread_views(rest@) + thread_views(back@).reverse() == ts,
        decreases rest.len(),
    {
        let ghost before_rest = rest@;
        let ghost before_back = back@;
        let t = rest.pop().unwrap();
        back.push(t);
        assert(thread_views(before_rest) =~= thread_views(rest@).push(t@));
        assert(thread_views(back@) =~= thread_views(before_back).push(t@));
        assert(thread_views(back@).reverse() =~= seq![t@] + thread_views(before_back).reverse());
    }
    assert(thread_views(rest@) =~= Seq::<ThreadView>::empty());
    assert(thread_views(back@).reverse() =~= ts);
    let m = back.len();
    let mut i: usize = 0;
    while back.len() > 0
        invariant
            i + back@.len() == m,
            m == ts.len(),
            thread_views(back@).reverse() == ts.skip(i as int),
            thread_views(kept@) == filter_threads_spec(ts.take(i as int), filter@),
        decreases back.len(),
    {
        let ghost before_back = back@;
        let t = back.pop().unwrap();
        assert(thread_views(before_back) =~= thread_views(back@).push(t@));
        assert(thread_views(before_back).reverse() =~= seq![t@] + thread_views(back@).reverse());
        assert(ts.skip(i as int)[0] == t@);
        assert(ts.skip(i as int).drop_first() =~= ts.skip(i + 1));
        assert(thread_views(back@).reverse() =~= ts.skip(i + 1));
        assert(ts.take(i + 1).drop_last() =~= ts.take(i as int));
        assert(ts.take(i + 1).last() == t@);
        let keep = match &t.prefix {
            Some(p) => prefix_matches(Some(p.as_str()), filter),
            None => prefix_matches(None, filter),
        };
        if keep {
            let ghost before_kept = kept@;
            kept.push(t);
            assert(thread_views(kept@) =~= thread_views(before_kept).push(t@));
        }
        i = i + 1;
    }
    assert(ts.take(m as int) =~= ts);
    kept
}

/// Whether a file already on disk is complete: with a listed size, it holds
/// at least nine tenths of it.
pub open spec fn file_complete_spec(len: u64, listed: Option<u64>) -> bool {
    match listed {
        Some(l) => len >= l * 9 / 10,
        None => true,
    }
}

/// Whether a file of `len` bytes is complete for the listed size `listed`.
pub fn file_complete(len: u64, listed: Option<u64>) -> (r: bool)
    requires
        listed matches Some(l) ==> l * 9 <= u64::MAX,
    ensures
        r == file_complete_spec(len, listed),
{
    match listed {
        Some(l) => len >= l * 9 / 10,
        None => true,
    }
}

/// The home-relative part of a `~/...` path, when a home directory is known.
pub open spec fn home_relative_spec(path: Seq<char>, home: Seq<char>) -> Option<Seq<char>> {
    if starts_with(path, "~/"@) && home.len() > 0 {
        Some(path.skip(2))
    } else {
        None
    }
}

/// The part of `path` to place under the home directory `home`: what follows
/// `~/`, when the path starts so and `home` is not empty.
pub fn home_relative(path: &str, home: &str) -> (r: Option<String>)
    ensures
        opt_view(r) == home_relative_spec(path@, home@),
{
    let p = chars_of(path);
    let h = chars_of(home);
    let tilde = chars_of("~/");
    proof {
        reveal_strlit("~/");
    }
    if starts_with_chars(p.as_slice(), tilde.as_slice()) && h.len() > 0 {
        let rest = vstd::slice::slice_subrange(p.as_slice(), 2, p.len());
        assert(rest@ == p@.skip(2));
        Some(string_of(rest))
    } else {
        None
    }
}

} // verus!
