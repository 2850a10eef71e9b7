use fuo::cli::{
    attachments_table, color_for, comments_listing, escape_toml, file_complete, filter_threads, home_relative,
    install_target_id, prefix_matches, short_prefix, threads_table, toml_key,
    vote_suffix, write_comments_toml, write_manifest_toml,
};
use fuo::install::{InstallOutcome, InstallRun, InstallTotals};
use fuo::model::{Attachment, Comment, Thread};

fn att(id: u32, name: &str, size: Option<&str>, views: Option<u32>) -> Attachment {
    Attachment {
        id,
        name: name.to_string(),
        url: format!("/attachments/x.{id}/"),
        size: size.map(str::to_string),
        views,
        media_id: None,
        media_slug: None,
    }
}

fn comment(author: &str, body: &str, vote: Option<&str>) -> Comment {
    Comment {
        author: author.to_string(),
        body: body.to_string(),
        date: "2024-01-01".to_string(),
        vote: vote.map(str::to_string),
    }
}

fn thread(id: u32, prefix: Option<&str>, class: Option<&str>, title: &str, replies: u32) -> Thread {
    Thread {
        id,
        slug: "s".to_string(),
        title: title.to_string(),
        prefix: prefix.map(str::to_string),
        prefix_class: class.map(str::to_string),
        author: "alice".to_string(),
        replies,
        url: String::new(),
    }
}

#[test]
fn toml_escaping() {
    assert_eq!(escape_toml("a\"b\\c\nd\re\tf"), "a\\\"b\\\\c\\nd\\re\\tf");
    assert_eq!(escape_toml("Đề thi"), "Đề thi");
    assert_eq!(escape_toml(""), "");
}

#[test]
fn toml_keys() {
    assert_eq!(toml_key("de_thi-1", 5), "de_thi-1");
    assert_eq!(toml_key("de thi", 5), "5");
    assert_eq!(toml_key("", 42), "42");
    assert_eq!(toml_key("đề", 7), "7");
}

#[test]
fn manifest_file() {
    let atts = vec![
        att(11, "page-1.png", Some("245.6 KB"), Some(34)),
        att(12, "scan two.jpg", None, None),
        att(13, "archive", None, Some(0)),
    ];
    let expected = "title = \"PRF192 \\\"FE\\\"\"\nthread_id = 7218\n\
\n[page-1]\nname = \"page-1.png\"\nattachment_id = 11\nsize = \"245.6 KB\"\nviews = 34\n\
\n[12]\nname = \"scan two.jpg\"\nattachment_id = 12\n\
\n[archive]\nname = \"archive\"\nattachment_id = 13\nviews = 0\n";
    assert_eq!(write_manifest_toml("PRF192 \"FE\"", 7218, &atts), expected);
}

#[test]
fn comments_file() {
    let a = att(11, "page-1.png", None, None);
    let b = att(12, "quiet.png", None, None);
    let items: Vec<(&Attachment, Vec<Comment>)> = vec![
        (&a, vec![comment("bob", "line1\nline2", Some("A")), comment("carol", "ok", None)]),
        (&b, Vec::new()),
    ];
    let expected = "title = \"T\"\nthread_id = 1\n\
\n[page-1]\n\
[[page-1.comments]]\nauthor = \"bob\"\ndate = \"2024-01-01\"\nvote = \"A\"\nbody = \"line1\\nline2\"\n\
[[page-1.comments]]\nauthor = \"carol\"\ndate = \"2024-01-01\"\nbody = \"ok\"\n";
    assert_eq!(write_comments_toml("T", 1, &items), expected);
}

#[test]
fn thread_table() {
    let ts = vec![
        thread(7218, Some("Đề Thi FE"), Some("label--red"), "PRF192 Final", 1200),
        thread(5, None, None, "Notes", 3),
    ];
    let expected = "ID    PREFIX  TITLE         AUTHOR  REPLIES\n\
7218  \x1b[31mFE    \x1b[0m  PRF192 Final  alice      1200\n\
5     -     \x1b[0m  Notes         alice         3\n\
\n2 threads\n";
    assert_eq!(threads_table(&ts), expected);
    assert_eq!(threads_table(&[]), "No threads found.\n");
}

#[test]
fn attachment_table() {
    let atts = vec![att(12345, "de thi.png", Some("1 MB"), Some(34)), att(7, "a", None, None)];
    let expected = "ID     NAME        SIZE  VIEWS\n\
12345  de thi.png  1 MB  34   \n\
7      a           -     -    \n\
\n2 attachments\n";
    assert_eq!(attachments_table(&atts), expected);
    assert_eq!(attachments_table(&[]), "No attachments.\n");
}

#[test]
fn prefixes_and_colours() {
    assert_eq!(short_prefix("Đề Thi FE"), "FE");
    assert_eq!(short_prefix("PE"), "PE");
    assert_eq!(color_for(Some("label--green")), "\x1b[32m");
    assert_eq!(color_for(Some("label--gray")), "\x1b[90m");
    assert_eq!(color_for(Some("label--pink")), "");
    assert_eq!(color_for(None), "");
}

#[test]
fn vote_suffixes() {
    assert_eq!(vote_suffix(Some("A")), " [vote A]");
    assert_eq!(vote_suffix(Some("")), "");
    assert_eq!(vote_suffix(None), "");
}

#[test]
fn install_targets() {
    assert_eq!(install_target_id("7218"), Some(7218));
    assert_eq!(install_target_id("prf192-fe.7218"), Some(7218));
    assert_eq!(install_target_id("PRF192"), None);
    assert_eq!(install_target_id("a.b"), None);
    assert_eq!(install_target_id("1.x"), None);
}

#[test]
fn search_filter() {
    assert!(prefix_matches(Some("Đề Thi FE"), "fe"));
    assert!(prefix_matches(Some("Đề Thi FE"), "ĐỀ"));
    assert!(!prefix_matches(Some("Đề Thi PE"), "fe"));
    assert!(!prefix_matches(None, "fe"));
    assert!(prefix_matches(None, ""));
    assert!(prefix_matches(Some("ĐỀ THI"), "đề thi"));
    let ts = vec![
        thread(1, Some("Đề Thi FE"), None, "a", 0),
        thread(2, Some("Đề Thi PE"), None, "b", 0),
        thread(3, None, None, "c", 0),
        thread(4, Some("FE"), None, "d", 0),
    ];
    let kept: Vec<u32> = filter_threads(ts, "FE").iter().map(|t| t.id).collect();
    assert_eq!(kept, vec![1, 4]);
}

#[test]
fn files_on_disk() {
    assert!(file_complete(90, Some(100)));
    assert!(!file_complete(89, Some(100)));
    assert!(file_complete(0, None));
    assert!(file_complete(0, Some(1)));
}

#[test]
fn home_paths() {
    assert_eq!(home_relative("~/fpt", "/home/u").as_deref(), Some("fpt"));
    assert_eq!(home_relative("~/fpt", ""), None);
    assert_eq!(home_relative("install", "/home/u"), None);
    assert_eq!(home_relative("~", "/home/u"), None);
}

#[test]
fn install_run_records_each_attachment() {
    let atts = vec![att(1, "a.png", None, None), att(2, "b.png", None, None), att(3, "c.png", None, None)];
    let mut run = InstallRun::new(&atts, true);
    assert!(run.wants_comments());
    let mut seen = Vec::new();
    let mut round = 0;
    while let Some(a) = run.current() {
        seen.push(a.id);
        let fetched = match round {
            0 => Some(vec![comment("bob", "hi", None)]),
            1 => None,
            _ => Some(Vec::new()),
        };
        run.record_comments(fetched);
        if round == 2 {
            run.record_present();
        }
        round += 1;
    }
    assert_eq!(seen, vec![1, 2, 3]);
    assert_eq!(run.summary(), (3, 1, 1));
    let (comments, manifest) = run.files("T", 9);
    let comments = comments.expect("comments file");
    assert!(comments.starts_with("title = \"T\"\nthread_id = 9\n\n[a]\n[[a.comments]]\n"));
    assert!(manifest.contains("[c]\nname = \"c.png\"\nattachment_id = 3\n"));
}

#[test]
fn install_run_without_comments_writes_no_comments_file() {
    let atts = vec![att(1, "a.png", None, None)];
    let mut run = InstallRun::new(&atts, false);
    run.record_comments(Some(vec![comment("x", "y", None)]));
    assert_eq!(run.summary(), (1, 0, 0));
    let (comments, _) = run.files("T", 1);
    assert!(comments.is_none());
}

#[test]
fn subject_totals() {
    let mut totals = InstallTotals::new();
    assert!(totals.record(InstallOutcome::Installed));
    assert!(totals.record(InstallOutcome::AlreadyInstalled));
    assert!(totals.record(InstallOutcome::Failed));
    assert!(totals.record(InstallOutcome::Installed));
    assert!(!totals.record(InstallOutcome::Forbidden));
    assert_eq!((totals.done, totals.skipped, totals.failed), (2, 1, 1));
}

#[test]
fn comment_listing_indents_each_body_line() {
    let a = att(42, "de1.pdf", None, None);
    let comments = vec![
        comment("alice", "Câu 1: A\nCâu 2: B", Some("A")),
        comment("bob", "ok", None),
    ];
    assert_eq!(
        comments_listing(&a, &comments),
        "\nde1.pdf (attachment 42)\n  alice (2024-01-01) [vote A]\n    Câu 1: A\n    Câu 2: B\n  bob (2024-01-01)\n    ok\n"
    );
    assert_eq!(comments_listing(&a, &[]), "\nde1.pdf (attachment 42)\n");
}
