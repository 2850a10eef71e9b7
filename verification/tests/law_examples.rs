use fuo::cli::{escape_toml, filter_threads, prefix_matches, toml_key};
use fuo::client::{comments_path, page_preview};
use fuo::forum::{parse_threads, thread_from_row, thread_slug, ThreadRow};
use fuo::model::Thread;
use fuo::text::{parse_u32_str, u32_string};
use fuo::thread::{attachment_from_row, parse_media, AttachmentRow};

fn unescape(s: &str) -> String {
    let mut out = String::new();
    let mut chars = s.chars();
    while let Some(c) = chars.next() {
        if c == '\\' {
            match chars.next() {
                Some('n') => out.push('\n'),
                Some('r') => out.push('\r'),
                Some('t') => out.push('\t'),
                Some(other) => out.push(other),
                None => out.push('\\'),
            }
        } else {
            out.push(c);
        }
    }
    out
}

#[test]
fn numbers_read_back() {
    for n in [0u32, 7, 10, 7218, 4_294_967_295] {
        assert_eq!(parse_u32_str(&u32_string(n)), Some(n));
    }
    assert_eq!(parse_u32_str("+12"), Some(12));
    assert_eq!(parse_u32_str("4294967296"), None);
    assert_eq!(parse_u32_str("+"), None);
    assert_eq!(parse_u32_str("-1"), None);
}

#[test]
fn thread_links_lead_back_to_their_slug() {
    let row = ThreadRow {
        class: Some("js-threadListItem-7218".to_string()),
        href: Some("/threads/prf192.fe.7218/".to_string()),
        title: None,
        label: None,
        author: None,
        replies: None,
    };
    let t = thread_from_row(&row);
    assert_eq!(t.slug, "prf192.fe");
    assert_eq!(thread_slug(&t.url).as_deref(), Some(t.slug.as_str()));
}

#[test]
fn comments_come_from_the_lightbox_media() {
    let a = attachment_from_row(&AttachmentRow {
        href: Some("/attachments/x.1/".to_string()),
        lightbox: Some("/media/de-thi.v2.678/sidebar".to_string()),
        name: None,
        meta: None,
    });
    let path = comments_path(&a).expect("a media page");
    assert_eq!(path, "/media/de-thi.v2.678/?lightbox=1");
    assert_eq!(parse_media(&path), Some(("de-thi.v2".to_string(), 678)));
}

#[test]
fn toml_text_reads_back_on_one_line() {
    for s in ["plain", "a\"b", "back\\slash", "two\nlines\r\n\ttab", "Đề thi \"FE\""] {
        let e = escape_toml(s);
        assert!(!e.contains('\n') && !e.contains('\r') && !e.contains('\t'));
        assert_eq!(unescape(&e), s);
    }
}

#[test]
fn table_names_are_bare_keys() {
    for (stem, id) in [("ok_name", 1u32), ("has space", 2), ("", 3), ("dấu", 4)] {
        let k = toml_key(stem, id);
        assert!(!k.is_empty());
        assert!(k.chars().all(|c| c.is_ascii_alphanumeric() || c == '_' || c == '-'));
    }
}

#[test]
fn previews_are_one_line() {
    let page = format!("<html><title>\n  Blocked\r\n  page \t </title>{}</html>", "z".repeat(400));
    let p = page_preview(&page);
    assert_eq!(p, "Blocked page");
    let q = page_preview(&format!("<body>\n{}\n</body>", "w ".repeat(500)));
    assert!(q.chars().count() <= 200);
    assert!(q.chars().all(|c| !c.is_whitespace() || c == ' '));
}

#[test]
fn filtering_keeps_only_matches_in_order() {
    let mk = |id: u32, p: Option<&str>| Thread {
        id,
        slug: String::new(),
        title: String::new(),
        prefix: p.map(str::to_string),
        prefix_class: None,
        author: String::new(),
        replies: 0,
        url: String::new(),
    };
    let ts = vec![mk(1, Some("PE")), mk(2, Some("FE")), mk(3, Some("Đề Thi PE"))];
    let kept = filter_threads(ts, "pe");
    assert_eq!(kept.iter().map(|t| t.id).collect::<Vec<_>>(), vec![1, 3]);
    assert!(kept.iter().all(|t| prefix_matches(t.prefix.as_deref(), "pe")));
}

#[test]
fn saved_cookie_header_restores_each_pair() {
    let header = "xf_csrf=abc; xf_user=12%2Cdef; xf_session=xyz";
    assert_eq!(
        fuo::client::cookie_directives(header),
        vec![
            "xf_csrf=abc; Path=/".to_string(),
            "xf_user=12%2Cdef; Path=/".to_string(),
            "xf_session=xyz; Path=/".to_string()
        ]
    );
}

#[test]
fn listed_threads_link_to_themselves_and_colour_only_their_prefix() {
    let html = r#"<div class="js-threadList">
  <div class="structItem structItem--thread js-threadListItem-1">
    <div class="structItem-title"><span class="label label--red">FE</span><a href="/threads/a.b.1/">A</a></div>
  </div>
  <div class="structItem structItem--thread js-threadListItem-2">
    <div class="structItem-title"><span class="label">PE</span><a href="/threads/c.2/">C</a></div>
  </div>
  <div class="structItem structItem--thread js-threadListItem-3">
    <div class="structItem-title"><a href="/threads/d.3/">D</a></div>
  </div>
</div>"#;
    let threads = parse_threads(html);
    assert_eq!(threads.len(), 3);
    for t in &threads {
        assert_eq!(t.url, format!("/threads/{}.{}/", t.slug, t.id));
        if let Some(c) = &t.prefix_class {
            assert!(t.prefix.is_some());
            assert!(c.starts_with("label--"));
        }
    }
    assert_eq!(threads[0].prefix_class.as_deref(), Some("label--red"));
    assert_eq!(threads[1].prefix.as_deref(), Some("PE"));
    assert_eq!(threads[1].prefix_class, None);
    assert_eq!(threads[2].prefix, None);
}
