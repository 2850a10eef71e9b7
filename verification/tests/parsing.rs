use fuo::forum::{
    page_count, parse_replies, parse_threads, thread_from_row, thread_id, thread_slug,
    total_pages, ThreadRow,
};
use fuo::thread::{
    attachment_from_row, comment_from_row, parse_attachments, parse_comments, parse_media,
    parse_meta, parse_thread_title, thread_title, AttachmentRow, CommentRow,
};

const LISTING: &str = r#"<html><body>
<div class="structItemContainer-group js-threadList">
  <div class="structItem structItem--thread js-inlineModContainer js-threadListItem-7218">
    <div class="structItem-cell structItem-cell--main">
      <div class="structItem-title">
        <a href="/forums/prf192/?prefix_id=3" class="labelLink"><span class="label label--red">Đề Thi FE</span></a>
        <a href="/threads/prf192-fe-summer-2023.7218/"> PRF192 FE Summer 2023 </a>
      </div>
      <div class="structItem-minor"><ul class="structItem-parts"><li><a class="username">alice</a></li></ul></div>
    </div>
    <div class="structItem-cell structItem-cell--meta"><dl><dt>Replies</dt><dd>1.2K</dd></dl></div>
  </div>
  <div class="structItem structItem--thread js-threadListItem-7300">
    <div class="structItem-cell structItem-cell--main">
      <div class="structItem-title">
        <a href="/threads/prf192-notes.7300/">Notes</a>
      </div>
      <div class="structItem-minor"><ul class="structItem-parts"><li><a class="username"> bob </a></li></ul></div>
    </div>
    <div class="structItem-cell structItem-cell--meta"><dl><dt>Replies</dt><dd> 42 </dd></dl></div>
  </div>
</div>
<div class="pageNav"><ul class="pageNav-main">
  <li class="pageNav-page"><a>1</a></li>
  <li class="pageNav-page pageNav-page--skip"><a>…</a></li>
  <li class="pageNav-page"><a> 12 </a></li>
  <li class="pageNav-page"><a>3</a></li>
</ul></div>
</body></html>"#;

#[test]
fn parses_the_thread_listing() {
    let threads = parse_threads(LISTING);
    assert_eq!(threads.len(), 2);
    let t = &threads[0];
    assert_eq!(t.id, 7218);
    assert_eq!(t.slug, "prf192-fe-summer-2023");
    assert_eq!(t.title, "PRF192 FE Summer 2023");
    assert_eq!(t.prefix.as_deref(), Some("Đề Thi FE"));
    assert_eq!(t.prefix_class.as_deref(), Some("label--red"));
    assert_eq!(t.author, "alice");
    assert_eq!(t.replies, 1200);
    assert_eq!(t.url, "/threads/prf192-fe-summer-2023.7218/");
    let u = &threads[1];
    assert_eq!(u.id, 7300);
    assert_eq!(u.slug, "prf192-notes");
    assert_eq!(u.prefix, None);
    assert_eq!(u.prefix_class, None);
    assert_eq!(u.author, "bob");
    assert_eq!(u.replies, 42);
    assert_eq!(u.url, "/threads/prf192-notes.7300/");
}

#[test]
fn prefix_colour_comes_from_the_prefix_label() {
    let html = r#"<div class="js-threadList">
  <div class="structItem structItem--thread js-threadListItem-9">
    <div class="structItem-title">
      <a class="labelLink"><span class="label"> Plain </span></a>
      <span class="label label--green">Second</span>
      <a href="/threads/plain.9/">Plain thread</a>
    </div>
  </div>
</div>"#;
    let threads = parse_threads(html);
    assert_eq!(threads.len(), 1);
    assert_eq!(threads[0].prefix.as_deref(), Some("Plain"));
    assert_eq!(threads[0].prefix_class, None);
    assert_eq!(threads[0].url, "/threads/plain.9/");
}

#[test]
fn page_without_listing_has_no_threads() {
    assert!(parse_threads("<html><body><p>nothing</p></body></html>").is_empty());
}

#[test]
fn total_pages_is_the_largest_page_link() {
    assert_eq!(total_pages(LISTING), 12);
}

#[test]
fn total_pages_defaults_to_one() {
    assert_eq!(total_pages("<html><body></body></html>"), 1);
}

#[test]
fn page_count_skips_labels_that_are_not_numbers() {
    let labels = vec!["…".to_string(), " 4 ".to_string(), "2".to_string(), "x".to_string()];
    assert_eq!(page_count(&labels), 4);
    assert_eq!(page_count(&Vec::new()), 1);
}

#[test]
fn reply_counts() {
    assert_eq!(parse_replies("12"), 12);
    assert_eq!(parse_replies(" 7 "), 7);
    assert_eq!(parse_replies("1.2K"), 1200);
    assert_eq!(parse_replies("3K"), 3000);
    assert_eq!(parse_replies("2.345K"), 2345);
    assert_eq!(parse_replies("1.23456K"), 1234);
    assert_eq!(parse_replies(".5K"), 500);
    assert_eq!(parse_replies("-1K"), 0);
    assert_eq!(parse_replies("abc"), 0);
    assert_eq!(parse_replies("K"), 0);
    assert_eq!(parse_replies("99999999K"), u32::MAX);
    assert_eq!(parse_replies(""), 0);
}

#[test]
fn reply_counts_in_float_notations() {
    assert_eq!(parse_replies("1e3K"), 1_000_000);
    assert_eq!(parse_replies("1E2K"), 100_000);
    assert_eq!(parse_replies("1.5e2K"), 150_000);
    assert_eq!(parse_replies("1e-3K"), 1);
    assert_eq!(parse_replies("1e-100K"), 0);
    assert_eq!(parse_replies("1e100K"), u32::MAX);
    assert_eq!(parse_replies("+2K"), 2000);
    assert_eq!(parse_replies("infK"), u32::MAX);
    assert_eq!(parse_replies("INFINITY K"), u32::MAX);
    assert_eq!(parse_replies("-infK"), 0);
    assert_eq!(parse_replies("NaNK"), 0);
    assert_eq!(parse_replies("1eK"), 0);
    assert_eq!(parse_replies("e3K"), 0);
    assert_eq!(parse_replies(".K"), 0);
    assert_eq!(parse_replies("0.0004K"), 0);
}

#[test]
fn thread_ids_come_from_the_row_class() {
    assert_eq!(thread_id("structItem js-threadListItem-7218 is-unread"), 7218);
    assert_eq!(thread_id("structItem js-threadListItem-x js-threadListItem-9"), 9);
    assert_eq!(thread_id("structItem"), 0);
    assert_eq!(thread_id(""), 0);
}

#[test]
fn thread_slugs_come_from_the_link() {
    assert_eq!(thread_slug("/threads/prf192-fe.7218/").as_deref(), Some("prf192-fe"));
    assert_eq!(thread_slug("/threads/a.b.c.9/page-2").as_deref(), Some("a.b.c"));
    assert_eq!(thread_slug("/threads/no-dot/"), None);
}

#[test]
fn a_row_without_cells_is_an_empty_thread() {
    let row = ThreadRow {
        class: None,
        href: None,
        title: None,
        label: None,
        author: None,
        replies: None,
    };
    let t = thread_from_row(&row);
    assert_eq!(t.id, 0);
    assert_eq!(t.slug, "");
    assert_eq!(t.title, "");
    assert_eq!(t.replies, 0);
    assert_eq!(t.url, "/threads/.0/");
}

#[test]
fn prefix_class_is_the_first_colour_class() {
    let row = ThreadRow {
        class: Some("js-threadListItem-5".to_string()),
        href: Some("/threads/s.5/".to_string()),
        title: Some("T".to_string()),
        label: Some((
            " PE ".to_string(),
            Some("label label--blue label--big".to_string()),
        )),
        author: Some("x".to_string()),
        replies: Some("0".to_string()),
    };
    let t = thread_from_row(&row);
    assert_eq!(t.prefix.as_deref(), Some("PE"));
    assert_eq!(t.prefix_class.as_deref(), Some("label--blue"));
}

const THREAD_PAGE: &str = r#"<html><body>
<h1 class="p-title-value"><span class="label label--blue">Đề Thi FE</span> PRF192 Summer </h1>
<ul class="attachmentList">
  <li class="file">
    <a class="file-preview" href="/attachments/de-thi-1-png.12345/" data-lb-sidebar-href="/media/de-thi-1-png.678/sidebar"></a>
    <span class="file-name"> de thi 1.png </span>
    <span class="file-meta">245.6 KB · Xem: 34</span>
  </li>
  <li class="file">
    <a class="file-preview" href="/attachments/scan.99/"></a>
    <span class="file-name">scan</span>
  </li>
</ul>
</body></html>"#;

#[test]
fn parses_the_thread_title_without_its_label() {
    assert_eq!(parse_thread_title(THREAD_PAGE), "PRF192 Summer");
    assert_eq!(
        parse_thread_title(r#"<h1 class="p-title-value"> Plain </h1>"#),
        "Plain"
    );
    assert_eq!(parse_thread_title("<p>no title</p>"), "");
}

#[test]
fn title_keeps_a_label_it_does_not_start_with() {
    assert_eq!(thread_title(" A B ", &Some("B".to_string())), "A B");
    assert_eq!(thread_title("B A", &Some(" ".to_string())), "B A");
    assert_eq!(thread_title("B  A", &Some("B".to_string())), "A");
}

#[test]
fn parses_attachments() {
    let atts = parse_attachments(THREAD_PAGE);
    assert_eq!(atts.len(), 2);
    let a = &atts[0];
    assert_eq!(a.id, 12345);
    assert_eq!(a.name, "de thi 1.png");
    assert_eq!(a.url, "/attachments/de-thi-1-png.12345/");
    assert_eq!(a.size.as_deref(), Some("245.6 KB"));
    assert_eq!(a.views, Some(34));
    assert_eq!(a.media_id, Some(678));
    assert_eq!(a.media_slug.as_deref(), Some("de-thi-1-png"));
    let b = &atts[1];
    assert_eq!(b.id, 99);
    assert_eq!(b.size, None);
    assert_eq!(b.views, None);
    assert_eq!(b.media_id, None);
    assert_eq!(b.media_slug, None);
}

#[test]
fn attachment_row_without_link() {
    let a = attachment_from_row(&AttachmentRow { href: None, lightbox: None, name: None, meta: None });
    assert_eq!(a.id, 0);
    assert_eq!(a.url, "");
    assert_eq!(a.name, "");
    assert_eq!(a.size, None);
}

#[test]
fn meta_lines() {
    assert_eq!(parse_meta("245.6 KB · Xem: 34"), (Some("245.6 KB".to_string()), Some(34)));
    assert_eq!(parse_meta("Xem: 5"), (None, Some(5)));
    assert_eq!(parse_meta("1 MB · Xem: many"), (Some("1 MB".to_string()), None));
    assert_eq!(parse_meta(""), (None, None));
    assert_eq!(parse_meta(" a · b "), (Some("b".to_string()), None));
    assert_eq!(parse_meta("Xem: 3 · Xem: x"), (None, None));
}

#[test]
fn media_links() {
    assert_eq!(parse_media("/media/abc.12/"), Some(("abc".to_string(), 12)));
    assert_eq!(parse_media("/media/a.b.7/sidebar"), Some(("a.b".to_string(), 7)));
    assert_eq!(parse_media("/media/abc/"), None);
    assert_eq!(parse_media("/media/abc.x/"), None);
}

const MEDIA_PAGE: &str = r#"<html><body>
<div class="js-comment" data-author="bob">
  <a class="comment-user"> Bob </a>
  <div class="comment-body">
    Nice!
  </div>
  <time class="u-dt" datetime="2024-01-01T10:00:00+0700">Jan 1</time>
  <span class="user-fuo-vote"> A </span>
</div>
<div class="js-comment" data-author="carol">
  <div class="comment-body">ok</div>
</div>
</body></html>"#;

#[test]
fn parses_comments() {
    let cs = parse_comments(MEDIA_PAGE);
    assert_eq!(cs.len(), 2);
    assert_eq!(cs[0].author, "Bob");
    assert_eq!(cs[0].body, "Nice!");
    assert_eq!(cs[0].date, "2024-01-01T10:00:00+0700");
    assert_eq!(cs[0].vote.as_deref(), Some("A"));
    assert_eq!(cs[1].author, "carol");
    assert_eq!(cs[1].body, "ok");
    assert_eq!(cs[1].date, "");
    assert_eq!(cs[1].vote, None);
}

#[test]
fn comment_row_falls_back_to_the_author_attribute() {
    let c = comment_from_row(&CommentRow {
        author: None,
        author_attr: None,
        body: None,
        date: None,
        vote: Some(" ".to_string()),
    });
    assert_eq!(c.author, "");
    assert_eq!(c.body, "");
    assert_eq!(c.vote.as_deref(), Some(""));
}
