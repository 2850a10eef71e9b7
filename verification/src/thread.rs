//! Reading a thread's page and the comments of its attachments.

use vstd::prelude::*;

use crate::forum::{
    column_len, column_len_exec, split_segment, split_segment_chars, trimmed_or_empty, value_at,
    value_at_exec,
};
use crate::model::{
    attachment_views, comment_views, opt_view, Attachment, AttachmentView, Comment, CommentView,
};
use crate::scrape::{
    scraped_attrs, scraped_inner_attrs, scraped_inner_texts, scraped_texts, select_attrs,
    select_inner_attrs, select_inner_texts, select_texts, values_view,
};
use crate::text::{
    lemma_split_char_len, split_char, chars_of, parse_u32, parse_u32_spec, starts_with, starts_with_chars, string_of, trim,
    trim_string, trimmed,
};

verus! {

broadcast use vstd::string::group_string_axioms;

/// The thread's title heading.
pub const PAGE_TITLE: &'static str = ".p-title-value";

/// A prefix label inside the title.
pub const TITLE_LABEL: &'static str = ".label";

/// One attached file.
pub const ATTACHMENT_ITEM: &'static str = "ul.attachmentList li.file";

/// The file's preview link.
pub const ATTACHMENT_LINK: &'static str = "a.file-preview";

/// The file's name.
pub const ATTACHMENT_NAME: &'static str = ".file-name";

/// The file's size and view count.
pub const ATTACHMENT_META: &'static str = ".file-meta";

/// One comment of a media page.
pub const COMMENT_ITEM: &'static str = "div.js-comment";

/// The comment's author.
pub const COMMENT_AUTHOR: &'static str = ".comment-user";

/// The comment's text.
pub const COMMENT_BODY: &'static str = ".comment-body";

/// The comment's timestamp.
pub const COMMENT_DATE: &'static str = "time.u-dt";

/// The comment's vote.
pub const COMMENT_VOTE: &'static str = ".user-fuo-vote";

/// Path prefix of attachment links.
pub const ATTACHMENTS_PATH: &'static str = "/attachments/";

/// Path prefix of media links.
pub const MEDIA_PATH: &'static str = "/media/";

/// The label that introduces a view count in an attachment's meta line.
pub const VIEWS_LABEL: &'static str = "Xem:";

/// The separator between the fields of an attachment's meta line.
pub const META_SEPARATOR: char = '\u{b7}';

// ---------------------------------------------------------------------------
// Title
// ---------------------------------------------------------------------------

/// A heading's title without its prefix label: when the (trimmed) label is
/// not empty and the title starts with it, the rest of the title, trimmed.
pub open spec fn title_without_label(title: Seq<char>, label: Seq<char>) -> Seq<char> {
    if label.len() > 0 && starts_with(title, label) {
        trim(title.skip(label.len() as int))
    } else {
        title
    }
}

/// The title of a thread page: the first title heading's text, trimmed, with
/// its prefix label removed; empty when the page has no title heading.
pub open spec fn thread_title_spec(html: Seq<char>) -> Seq<char> {
    match scraped_texts(html, PAGE_TITLE@) {
        Some(ts) => if ts.len() > 0 {
            title_without_label(
                trim(ts[0]),
                trimmed_or_empty(value_at(scraped_inner_texts(html, PAGE_TITLE@, TITLE_LABEL@), 0)),
            )
        } else {
            seq![]
        },
        None => seq![],
    }
}

/// The title of a heading whose text is `heading` and whose prefix label, if
/// any, reads `label`.
pub fn thread_title(heading: &str, label: &Option<String>) -> (r: String)
    ensures
        r@ == title_without_label(trim(heading@), trimmed_or_empty(opt_view(*label))),
{
    let hv = chars_of(heading);
    let title = trimmed(hv.as_slice());
    let lab: Vec<char> = match label {
        Some(l) => {
            let lv = chars_of(l.as_str());
            trimmed(lv.as_slice())
        },
        None => Vec::new(),
    };
    if lab.len() > 0 && starts_with_chars(title.as_slice(), lab.as_slice()) {
        let rest = vstd::slice::slice_subrange(title.as_slice(), lab.len(), title.len());
        assert(rest@ == title@.skip(lab@.len() as int));
        let rt = trimmed(rest);
        string_of(rt.as_slice())
    } else {
        string_of(title.as_slice())
    }
}

/// The title of a thread page.
pub fn parse_thread_title(html: &str) -> (r: String)
    ensures
        r@ == thread_title_spec(html@),
{
    match select_texts(html, PAGE_TITLE) {
        Some(ts) => if ts.len() > 0 {
            let labels = select_inner_texts(html, PAGE_TITLE, TITLE_LABEL);
            let label = value_at_exec(&labels, 0);
            thread_title(ts[0].as_str(), &label)
        } else {
            string_of(&[])
        },
        None => string_of(&[]),
    }
}

// ---------------------------------------------------------------------------
// Attachment meta line
// ---------------------------------------------------------------------------

/// The size and view count read so far, after one more field `part`.
pub open spec fn meta_step(acc: (Option<Seq<char>>, Option<u32>), part: Seq<char>) -> (
    Option<Seq<char>>,
    Option<u32>,
) {
    let p = trim(part);
    if starts_with(p, VIEWS_LABEL@) {
        (acc.0, parse_u32_spec(trim(p.skip(VIEWS_LABEL@.len() as int))))
    } else if p.len() > 0 {
        (Some(p), acc.1)
    } else {
        acc
    }
}

/// The size and view count read from the fields `parts`, in order: a
/// `Xem:` field sets the view count, any other non-empty field the size.
pub open spec fn meta_fold(parts: Seq<Seq<char>>) -> (Option<Seq<char>>, Option<u32>)
    decreases parts.len(),
{
    if parts.len() == 0 {
        (None, None)
    } else {
        meta_step(meta_fold(parts.drop_last()), parts.last())
    }
}

/// The size and view count of an attachment's meta line `size · Xem: views`.
pub open spec fn parse_meta_spec(meta: Seq<char>) -> (Option<Seq<char>>, Option<u32>) {
    meta_fold(split_char(meta, META_SEPARATOR))
}

fn meta_step_exec(size: Option<Vec<char>>, views: Option<u32>, part: &[char], label: &[char]) -> (r:
    (Option<Vec<char>>, Option<u32>))
    requires
        label@ == VIEWS_LABEL@,
    ensures
        (match r.0 {
            Some(v) => Some(v@),
            None => None,
        }, r.1) == meta_step(
            (
                match size {
                    Some(v) => Some(v@),
                    None => None,
                },
                views,
            ),
            part@,
        ),
{
    let p = trimmed(part);
    if starts_with_chars(p.as_slice(), label) {
        let rest = vstd::slice::slice_subrange(p.as_slice(), label.len(), p.len());
        assert(rest@ == p@.skip(label@.len() as int));
        let t = trimmed(rest);
        (size, parse_u32(t.as_slice()))
    } else if p.len() > 0 {
        (Some(p), views)
    } else {
        (size, views)
    }
}

/// The size and view count of an attachment's meta line.
pub fn parse_meta(meta: &str) -> (r: (Option<String>, Option<u32>))
    ensures
        (opt_view(r.0), r.1) == parse_meta_spec(meta@),
{
    let v = chars_of(meta);
    let label = chars_of(VIEWS_LABEL);
    let n = v.len();
    let mut size: Option<Vec<char>> = None;
    let mut views: Option<u32> = None;
    let mut cur: Vec<char> = Vec::new();
    proof {
        lemma_split_char_len(v@.take(0), META_SEPARATOR);
        assert(v@.take(0) == Seq::<char>::empty());
    }
    for i in 0..n
        invariant
            n == v@.len(),
            label@ == VIEWS_LABEL@,
            split_char(v@.take(i as int), META_SEPARATOR).len() >= 1,
            cur@ == split_char(v@.take(i as int), META_SEPARATOR).last(),
            (
                match size {
                    Some(s) => Some(s@),
                    None => None,
                },
                views,
            ) == meta_fold(split_char(v@.take(i as int), META_SEPARATOR).drop_last()),
    {
        let c = v[i];
        let ghost ps = split_char(v@.take(i as int), META_SEPARATOR);
        assert(v@.take(i + 1).drop_last() == v@.take(i as int));
        if c == META_SEPARATOR {
            let (s2, v2) = meta_step_exec(size, views, cur.as_slice(), label.as_slice());
            size = s2;
            views = v2;
            cur = Vec::new();
            assert(split_char(v@.take(i + 1), META_SEPARATOR) == ps.push(seq![]));
            assert(ps.push(seq![]).drop_last() == ps);
            assert(ps == ps.drop_last().push(ps.last()));
        } else {
            cur.push(c);
            assert(split_char(v@.take(i + 1), META_SEPARATOR) == ps.update(
                ps.len() - 1,
                ps.last().push(c),
            ));
            assert(ps.update(ps.len() - 1, ps.last().push(c)).drop_last() == ps.drop_last());
        }
    }
    assert(v@.take(n as int) == v@);
    let ghost ps = split_char(v@, META_SEPARATOR);
    assert(ps == ps.drop_last().push(ps.last()));
    let (s2, v2) = meta_step_exec(size, views, cur.as_slice(), label.as_slice());
    let size_string = match s2 {
        Some(s) => Some(string_of(s.as_slice())),
        None => None,
    };
    (size_string, v2)
}

// ---------------------------------------------------------------------------
// Links
// ---------------------------------------------------------------------------

/// The media page a lightbox link `/media/<slug>.<id>/...` points to.
pub open spec fn media_spec(href: Seq<char>) -> Option<(Seq<char>, u32)> {
    match split_segment(href, MEDIA_PATH@) {
        Some((slug, id_text)) => match parse_u32_spec(id_text) {
            Some(id) => Some((slug, id)),
            None => None,
        },
        None => None,
    }
}

/// The media page a lightbox link points to: its slug and id.
pub fn parse_media(href: &str) -> (r: Option<(String, u32)>)
    ensures
        r matches Some((s, id)) ==> media_spec(href@) == Some((s@, id)),
        r is None ==> media_spec(href@) is None,
{
    let v = chars_of(href);
    match split_segment_chars(v.as_slice(), MEDIA_PATH) {
        Some((slug, id_text)) => match parse_u32(id_text.as_slice()) {
            Some(id) => Some((string_of(slug.as_slice()), id)),
            None => None,
        },
        None => None,
    }
}

/// The id of an attachment link `/attachments/<name>.<id>/` (0 when none).
pub open spec fn attachment_id_spec(href: Seq<char>) -> u32 {
    match split_segment(href, ATTACHMENTS_PATH@) {
        Some((_, id_text)) => match parse_u32_spec(id_text) {
            Some(id) => id,
            None => 0,
        },
        None => 0,
    }
}

fn attachment_id(href: &[char]) -> (r: u32)
    ensures
        r == attachment_id_spec(href@),
{
    match split_segment_chars(href, ATTACHMENTS_PATH) {
        Some((_, id_text)) => match parse_u32(id_text.as_slice()) {
            Some(id) => id,
            None => 0,
        },
        None => 0,
    }
}

// ---------------------------------------------------------------------------
// Attachments
// ---------------------------------------------------------------------------

/// What a thread page shows of one attached file, as scraped: the preview
/// link's target and lightbox target, the name and the meta line.
#[derive(Debug)]
pub struct AttachmentRow {
    pub href: Option<String>,
    pub lightbox: Option<String>,
    pub name: Option<String>,
    pub meta: Option<String>,
}

/// The mathematical value of an [`AttachmentRow`].
pub struct AttachmentRowView {
    pub href: Option<Seq<char>>,
    pub lightbox: Option<Seq<char>>,
    pub name: Option<Seq<char>>,
    pub meta: Option<Seq<char>>,
}

impl View for AttachmentRow {
    type V = AttachmentRowView;

    open spec fn view(&self) -> AttachmentRowView {
        AttachmentRowView {
            href: opt_view(self.href),
            lightbox: opt_view(self.lightbox),
            name: opt_view(self.name),
            meta: opt_view(self.meta),
        }
    }
}

/// The text, or the empty string when there is none.
pub open spec fn or_empty(o: Option<Seq<char>>) -> Seq<char> {
    match o {
        Some(t) => t,
        None => seq![],
    }
}

/// The attachment a row describes.
pub open spec fn attachment_spec(row: AttachmentRowView) -> AttachmentView {
    let href = or_empty(row.href);
    let meta = parse_meta_spec(or_empty(row.meta));
    let media = match row.lightbox {
        Some(l) => media_spec(l),
        None => None,
    };
    AttachmentView {
        id: attachment_id_spec(href),
        name: trimmed_or_empty(row.name),
        url: href,
        size: meta.0,
        views: meta.1,
        media_id: match media {
            Some((_, id)) => Some(id),
            None => None,
        },
        media_slug: match media {
            Some((slug, _)) => Some(slug),
            None => None,
        },
    }
}

/// The attachment that a scraped row describes.
pub fn attachment_from_row(row: &AttachmentRow) -> (r: Attachment)
    ensures
        r@ == attachment_spec(row@),
{
    let href: Vec<char> = match &row.href {
        Some(h) => chars_of(h.as_str()),
        None => Vec::new(),
    };
    let (size, views) = match &row.meta {
        Some(m) => parse_meta(m.as_str()),
        None => parse_meta(""),
    };
    proof {
        if row.meta is None {
            reveal_strlit("");
        }
    }
    let media = match &row.lightbox {
        Some(l) => parse_media(l.as_str()),
        None => None,
    };
    let (media_slug, media_id) = match media {
        Some((slug, id)) => (Some(slug), Some(id)),
        None => (None, None),
    };
    let name = match &row.name {
        Some(n) => trim_string(n.as_str()),
        None => string_of(&[]),
    };
    let id = attachment_id(href.as_slice());
    let url = string_of(href.as_slice());
    let ghost expected = attachment_spec(row@);
    assert(href@ == or_empty(row@.href));
    assert(id == expected.id);
    assert(name@ == expected.name);
    assert(url@ == expected.url);
    assert(opt_view(size) == expected.size);
    assert(views == expected.views);
    assert(media_id == expected.media_id);
    assert(opt_view(media_slug) == expected.media_slug);
    Attachment { id, name, url, size, views, media_id, media_slug }
}

/// The rows of the attachment list of `html`, one per match of
/// [`ATTACHMENT_ITEM`].
pub open spec fn attachment_rows(html: Seq<char>) -> Seq<AttachmentRowView> {
    let hrefs = scraped_inner_attrs(html, ATTACHMENT_ITEM@, ATTACHMENT_LINK@, "href"@);
    let lightboxes = scraped_inner_attrs(
        html,
        ATTACHMENT_ITEM@,
        ATTACHMENT_LINK@,
        "data-lb-sidebar-href"@,
    );
    let names = scraped_inner_texts(html, ATTACHMENT_ITEM@, ATTACHMENT_NAME@);
    let metas = scraped_inner_texts(html, ATTACHMENT_ITEM@, ATTACHMENT_META@);
    Seq::new(
        column_len(hrefs),
        |i: int|
            AttachmentRowView {
                href: value_at(hrefs, i),
                lightbox: value_at(lightboxes, i),
                name: value_at(names, i),
                meta: value_at(metas, i),
            },
    )
}

/// The attachments of a thread page, in the order the parser
/// created their elements.
pub open spec fn parse_attachments_spec(html: Seq<char>) -> Seq<AttachmentView> {
    attachment_rows(html).map_values(|row: AttachmentRowView| attachment_spec(row))
}

/// The attachments of a thread page, in the order the parser
/// created their elements.
pub fn parse_attachments(html: &str) -> (r: Vec<Attachment>)
    ensures
        attachment_views(r@) == parse_attachments_spec(html@),
{
    let hrefs = select_inner_attrs(html, ATTACHMENT_ITEM, ATTACHMENT_LINK, "href");
    let lightboxes = select_inner_attrs(
        html,
        ATTACHMENT_ITEM,
        ATTACHMENT_LINK,
        "data-lb-sidebar-href",
    );
    let names = select_inner_texts(html, ATTACHMENT_ITEM, ATTACHMENT_NAME);
    let metas = select_inner_texts(html, ATTACHMENT_ITEM, ATTACHMENT_META);
    let ghost rows = attachment_rows(html@);
    let n = column_len_exec(&hrefs);
    let mut out: Vec<Attachment> = Vec::new();
    for i in 0..n
        invariant
            n == rows.len(),
            rows == attachment_rows(html@),
            values_view(hrefs) == scraped_inner_attrs(
                html@,
                ATTACHMENT_ITEM@,
                ATTACHMENT_LINK@,
                "href"@,
            ),
            values_view(lightboxes) == scraped_inner_attrs(
                html@,
                ATTACHMENT_ITEM@,
                ATTACHMENT_LINK@,
                "data-lb-sidebar-href"@,
            ),
            values_view(names) == scraped_inner_texts(html@, ATTACHMENT_ITEM@, ATTACHMENT_NAME@),
            values_view(metas) == scraped_inner_texts(html@, ATTACHMENT_ITEM@, ATTACHMENT_META@),
            attachment_views(out@) == rows.take(i as int).map_values(
                |row: AttachmentRowView| attachment_spec(row),
            ),
    {
        let row = AttachmentRow {
            href: value_at_exec(&hrefs, i),
            lightbox: value_at_exec(&lightboxes, i),
            name: value_at_exec(&names, i),
            meta: value_at_exec(&metas, i),
        };
        assert(row@ == rows[i as int]);
        let a = attachment_from_row(&row);
        let ghost before = out@;
        out.push(a);
        assert(attachment_views(out@) =~= attachment_views(before).push(a@));
        assert(rows.take(i + 1) == rows.take(i as int).push(rows[i as int]));
        assert(rows.take(i + 1).map_values(|row: AttachmentRowView| attachment_spec(row))
            =~= rows.take(i as int).map_values(|row: AttachmentRowView| attachment_spec(row)).push(
            attachment_spec(rows[i as int]),
        ));
    }
    assert(rows.take(n as int) == rows);
    out
}

// ---------------------------------------------------------------------------
// Comments
// ---------------------------------------------------------------------------

/// What a media page shows of one comment, as scraped: the author element's
/// text, the comment's `data-author` attribute, the body, the timestamp's
/// `datetime` and the vote.
#[derive(Debug)]
pub struct CommentRow {
    pub author: Option<String>,
    pub author_attr: Option<String>,
    pub body: Option<String>,
    pub date: Option<String>,
    pub vote: Option<String>,
}

/// The mathematical value of a [`CommentRow`].
pub struct CommentRowView {
    pub author: Option<Seq<char>>,
    pub author_attr: Option<Seq<char>>,
    pub body: Option<Seq<char>>,
    pub date: Option<Seq<char>>,
    pub vote: Option<Seq<char>>,
}

impl View for CommentRow {
    type V = CommentRowView;

    open spec fn view(&self) -> CommentRowView {
        CommentRowView {
            author: opt_view(self.author),
            author_attr: opt_view(self.author_attr),
            body: opt_view(self.body),
            date: opt_view(self.date),
            vote: opt_view(self.vote),
        }
    }
}

/// The comment a row describes: the author element's trimmed text, else the
/// `data-author` attribute, else empty.
pub open spec fn comment_spec(row: CommentRowView) -> CommentView {
    CommentView {
        author: match row.author {
            Some(a) => trim(a),
            None => or_empty(row.author_attr),
        },
        body: trimmed_or_empty(row.body),
        date: or_empty(row.date),
        vote: match row.vote {
            Some(v) => Some(trim(v)),
            None => None,
        },
    }
}

fn string_or_empty(o: &Option<String>) -> (r: String)
    ensures
        r@ == or_empty(opt_view(*o)),
{
    match o {
        Some(s) => s.clone(),
        None => string_of(&[]),
    }
}

/// The comment that a scraped row describes.
pub fn comment_from_row(row: &CommentRow) -> (r: Comment)
    ensures
        r@ == comment_spec(row@),
{
    let author = match &row.author {
        Some(a) => trim_string(a.as_str()),
        None => string_or_empty(&row.author_attr),
    };
    let body = match &row.body {
        Some(b) => trim_string(b.as_str()),
        None => string_of(&[]),
    };
    let vote = match &row.vote {
        Some(v) => Some(trim_string(v.as_str())),
        None => None,
    };
    let date = string_or_empty(&row.date);
    assert(author@ == comment_spec(row@).author);
    assert(body@ == comment_spec(row@).body);
    assert(date@ == comment_spec(row@).date);
    assert(opt_view(vote) == comment_spec(row@).vote);
    Comment { author, body, date, vote }
}

/// The rows of the comment list of `html`, one per match of [`COMMENT_ITEM`].
pub open spec fn comment_rows(html: Seq<char>) -> Seq<CommentRowView> {
    let author_attrs = scraped_attrs(html, COMMENT_ITEM@, "data-author"@);
    let authors = scraped_inner_texts(html, COMMENT_ITEM@, COMMENT_AUTHOR@);
    let bodies = scraped_inner_texts(html, COMMENT_ITEM@, COMMENT_BODY@);
    let dates = scraped_inner_attrs(html, COMMENT_ITEM@, COMMENT_DATE@, "datetime"@);
    let votes = scraped_inner_texts(html, COMMENT_ITEM@, COMMENT_VOTE@);
    Seq::new(
        column_len(author_attrs),
        |i: int|
            CommentRowView {
                author: value_at(authors, i),
                author_attr: value_at(author_attrs, i),
                body: value_at(bodies, i),
                date: value_at(dates, i),
                vote: value_at(votes, i),
            },
    )
}

/// The comments of a media page, in the order the parser
/// created their elements.
pub open spec fn parse_comments_spec(html: Seq<char>) -> Seq<CommentView> {
    comment_rows(html).map_values(|row: CommentRowView| comment_spec(row))
}

/// The comments of a media page, in the order the parser
/// created their elements.
pub fn parse_comments(html: &str) -> (r: Vec<Comment>)
    ensures
        comment_views(r@) == parse_comments_spec(html@),
{
    let author_attrs = select_attrs(html, COMMENT_ITEM, "data-author");
    let authors = select_inner_texts(html, COMMENT_ITEM, COMMENT_AUTHOR);
    let bodies = select_inner_texts(html, COMMENT_ITEM, COMMENT_BODY);
    let dates = select_inner_attrs(html, COMMENT_ITEM, COMMENT_DATE, "datetime");
    let votes = select_inner_texts(html, COMMENT_ITEM, COMMENT_VOTE);
    let ghost rows = comment_rows(html@);
    let n = column_len_exec(&author_attrs);
    let mut out: Vec<Comment> = Vec::new();
    for i in 0..n
        invariant
            n == rows.len(),
            rows == comment_rows(html@),
            values_view(author_attrs) == scraped_attrs(html@, COMMENT_ITEM@, "data-author"@),
            values_view(authors) == scraped_inner_texts(html@, COMMENT_ITEM@, COMMENT_AUTHOR@),
            values_view(bodies) == scraped_inner_texts(html@, COMMENT_ITEM@, COMMENT_BODY@),
            values_view(dates) == scraped_inner_attrs(
                html@,
                COMMENT_ITEM@,
                COMMENT_DATE@,
                "datetime"@,
            ),
            values_view(votes) == scraped_inner_texts(html@, COMMENT_ITEM@, COMMENT_VOTE@),
            comment_views(out@) == rows.take(i as int).map_values(
                |row: CommentRowView| comment_spec(row),
            ),
    {
        let row = CommentRow {
            author: value_at_exec(&authors, i),
            author_attr: value_at_exec(&author_attrs, i),
            body: value_at_exec(&bodies, i),
            date: value_at_exec(&dates, i),
            vote: value_at_exec(&votes, i),
        };
        assert(row@ == rows[i as int]);
        let c = comment_from_row(&row);
        let ghost before = out@;
        out.push(c);
        assert(comment_views(out@) =~= comment_views(before).push(c@));
        assert(rows.take(i + 1) == rows.take(i as int).push(rows[i as int]));
        assert(rows.take(i + 1).map_values(|row: CommentRowView| comment_spec(row)) =~= rows.take(
            i as int,
        ).map_values(|row: CommentRowView| comment_spec(row)).push(comment_spec(rows[i as int])));
    }
    assert(rows.take(n as int) == rows);
    out
}

} // verus!
