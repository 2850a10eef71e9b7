use std::time::Duration;

use fuo::client::{
    checked_page, comments_path, cookie_directives, forum_page, forum_path,
    is_banned, login_page_token, page_preview, resolve_location, site_url, thread_page,
    thread_path, FetchAction, FuoClientBuilder, LocationHeader, LoginAction,
    Redirects, Session, SubjectSearch, MAX_REQUESTS,
};
use fuo::constants::{BAN_MARKER, USER_AGENT, XF_REDIRECT};
use fuo::error::{is_forbidden, Error, IoError, NetworkError};
use fuo::login::LoginRequest;
use fuo::model::{Attachment, ForumPage, Thread};

fn thread(id: u32) -> Thread {
    Thread {
        id,
        slug: format!("s{id}"),
        title: format!("T{id}"),
        prefix: None,
        prefix_class: None,
        author: "a".to_string(),
        replies: 0,
        url: format!("/threads/s{id}.{id}/"),
    }
}

#[test]
fn ban_page_is_detected() {
    let page = format!("<html><a href=\"https://fuoverflow.com/{BAN_MARKER}/\">appeal</a></html>");
    assert!(is_banned(&page));
    assert!(!is_banned("<html>fine</html>"));
    assert!(matches!(checked_page(page), Err(Error::AccountBanned)));
    assert_eq!(checked_page("<p>ok</p>".to_string()).unwrap(), "<p>ok</p>");
}

#[test]
fn login_page_outcomes() {
    let banned = format!("<html>{BAN_MARKER}</html>");
    assert!(matches!(login_page_token(&banned), Err(Error::AccountBanned)));
    assert!(matches!(
        login_page_token("<title>Just a moment...</title>"),
        Err(Error::BotChallenge)
    ));
    assert_eq!(login_page_token(r#"<html data-csrf="t1"></html>"#).unwrap(), "t1");
    match login_page_token("<html><title> Access\n denied </title><body>x</body></html>") {
        Err(Error::UnexpectedLoginPage { preview }) => assert_eq!(preview, "Access denied"),
        other => panic!("unexpected {other:?}"),
    }
}

#[test]
fn preview_falls_back_to_the_page_start() {
    assert_eq!(page_preview("<title>  </title>  a\n\tb  "), "<title> </title> a b");
    let long = "x ".repeat(300);
    let p = page_preview(&long);
    assert_eq!(p.chars().count(), 159);
    assert!(p.chars().all(|c| c == 'x' || c == ' '));
    let wide = "y".repeat(500);
    assert_eq!(page_preview(&format!("<title>{wide}</title>")).chars().count(), 200);
}

#[test]
fn locations_resolve_under_the_site() {
    assert_eq!(resolve_location("/threads/x.1/"), "https://fuoverflow.com/threads/x.1/");
    assert_eq!(resolve_location("https://other.example/"), "https://other.example/");
    assert_eq!(site_url("/forums/A/"), "https://fuoverflow.com/forums/A/");
}

#[test]
fn redirects_are_followed_up_to_the_budget() {
    let mut f = Redirects::new("/a");
    match f.start() {
        FetchAction::Send(u) => assert_eq!(u, "https://fuoverflow.com/a"),
        other => panic!("{other:?}"),
    }
    for _ in 1..MAX_REQUESTS {
        match f.on_response(true, &LocationHeader::Text("/b".to_string())) {
            FetchAction::Send(u) => assert_eq!(u, "https://fuoverflow.com/b"),
            other => panic!("{other:?}"),
        }
    }
    assert!(matches!(
        f.on_response(true, &LocationHeader::Text("/c".to_string())),
        FetchAction::Fail(Error::TooManyRedirects)
    ));
}

#[test]
fn redirect_without_location_is_invalid() {
    let mut f = Redirects::new("/a");
    let _ = f.start();
    assert!(matches!(
        f.on_response(true, &LocationHeader::Missing),
        FetchAction::Fail(Error::InvalidRedirect)
    ));
    let mut g = Redirects::new("/a");
    let _ = g.start();
    assert!(matches!(
        g.on_response(true, &LocationHeader::Unreadable),
        FetchAction::Fail(Error::InvalidRedirect)
    ));
    assert!(matches!(g.on_response(false, &LocationHeader::Missing), FetchAction::Accept));
}

#[test]
fn login_flow() {
    let mut s = Session::new();
    assert!(!s.is_logged_in(""));
    assert!(s.is_logged_in("xf_csrf=a; xf_user=12%2Cabc"));
    assert!(matches!(
        s.on_login_response(false, &LocationHeader::Missing),
        LoginAction::Fail(Error::InvalidCredentials)
    ));
    match s.on_login_response(true, &LocationHeader::Text("/".to_string())) {
        LoginAction::Visit(u) => assert_eq!(u, "https://fuoverflow.com/"),
        other => panic!("{other:?}"),
    }
    match s.on_login_response(true, &LocationHeader::Unreadable) {
        LoginAction::Visit(u) => assert_eq!(u, "https://fuoverflow.com/"),
        other => panic!("{other:?}"),
    }
    assert!(!s.is_logged_in(""));
    assert!(matches!(s.on_landing_page("<html>home</html>"), LoginAction::Done));
    assert!(s.is_logged_in(""));
    assert!(!s.is_banned());
}

#[test]
fn login_landing_on_the_ban_page() {
    let mut s = Session::new();
    let page = format!("<html>{BAN_MARKER}</html>");
    assert!(matches!(s.on_landing_page(&page), LoginAction::Fail(Error::AccountBanned)));
    assert!(s.is_banned());
    assert!(!s.is_logged_in(""));
}

#[test]
fn login_without_redirect_target_is_done() {
    let mut s = Session::new();
    assert!(matches!(s.on_login_response(true, &LocationHeader::Missing), LoginAction::Done));
    assert!(s.is_logged_in(""));
}

#[test]
fn login_form_fields() {
    let r = LoginRequest::new("tok", "me", "pw", true);
    let form = r.to_form();
    let expected: Vec<(&str, String)> = vec![
        ("_xfToken", "tok".to_string()),
        ("login", "me".to_string()),
        ("password", "pw".to_string()),
        ("remember", "1".to_string()),
        ("_xfRedirect", XF_REDIRECT.to_string()),
    ];
    assert_eq!(form, expected);
    let f = LoginRequest::new("t", "u", "p", false).to_form();
    assert_eq!(f[3], ("remember", "0".to_string()));
}

#[test]
fn builder_settings() {
    let (ua, timeout, delay, cookies) = FuoClientBuilder::default().into_parts();
    assert_eq!(ua, USER_AGENT);
    assert_eq!(timeout, None);
    assert_eq!(delay, Duration::from_millis(500));
    assert!(cookies.is_empty());
    let (ua, timeout, delay, cookies) = FuoClientBuilder::default()
        .user_agent("bot/1")
        .timeout(Duration::from_secs(30))
        .delay(Duration::from_millis(5))
        .cookie("a=1", "https://fuoverflow.com/")
        .cookie("b=2", "https://fuoverflow.com/x")
        .into_parts();
    assert_eq!(ua, "bot/1");
    assert_eq!(timeout, Some(Duration::from_secs(30)));
    assert_eq!(delay, Duration::from_millis(5));
    assert_eq!(
        cookies,
        vec![
            ("a=1".to_string(), "https://fuoverflow.com/".to_string()),
            ("b=2".to_string(), "https://fuoverflow.com/x".to_string())
        ]
    );
}

#[test]
fn saved_cookies_are_restored_one_by_one() {
    assert_eq!(
        cookie_directives(" xf_user=1 ; xf_session=abc;;  "),
        vec!["xf_user=1; Path=/".to_string(), "xf_session=abc; Path=/".to_string()]
    );
    assert!(cookie_directives("").is_empty());
}

#[test]
fn site_paths() {
    assert_eq!(forum_path("prf192", 1), "/forums/PRF192/");
    assert_eq!(forum_path("prf192", 0), "/forums/PRF192/");
    assert_eq!(forum_path("Prf192", 3), "/forums/PRF192/page-3");
    assert_eq!(forum_path("straße", 2), "/forums/STRASSE/page-2");
    assert_eq!(thread_path(7218), "/threads/t.7218/");
    let mut a = Attachment {
        id: 1,
        name: "n".to_string(),
        url: "/attachments/n.1/".to_string(),
        size: None,
        views: None,
        media_id: Some(678),
        media_slug: Some("de-thi".to_string()),
    };
    assert_eq!(comments_path(&a).as_deref(), Some("/media/de-thi.678/?lightbox=1"));
    a.media_id = None;
    assert_eq!(comments_path(&a), None);
}

#[test]
fn pages_from_html() {
    let p = forum_page("<html></html>", 4);
    assert_eq!(p.page, 4);
    assert_eq!(p.total_pages, 1);
    assert!(p.threads.is_empty());
    let t = thread_page(r#"<h1 class="p-title-value">Hello</h1>"#);
    assert_eq!(t.title, "Hello");
    assert!(t.attachments.is_empty());
}

#[test]
fn subject_search_walks_every_page_in_order() {
    let first = ForumPage { threads: vec![thread(1), thread(2)], page: 1, total_pages: 3 };
    let mut search = SubjectSearch::start(first);
    let mut asked = Vec::new();
    while let Some(p) = search.next_page() {
        asked.push(p);
        search.add_page(ForumPage { threads: vec![thread(p * 10)], page: p, total_pages: 3 });
    }
    assert_eq!(asked, vec![2, 3]);
    let ids: Vec<u32> = search.finish().iter().map(|t| t.id).collect();
    assert_eq!(ids, vec![1, 2, 20, 30]);
}

#[test]
fn single_page_subject_asks_nothing_more() {
    let first = ForumPage { threads: vec![thread(1)], page: 1, total_pages: 1 };
    let search = SubjectSearch::start(first);
    assert_eq!(search.next_page(), None);
    assert_eq!(search.finish().len(), 1);
}

#[test]
fn forbidden_errors() {
    let e = Error::Network(NetworkError { status: Some(403), message: "403".to_string() });
    assert!(is_forbidden(&e));
    let e = Error::Network(NetworkError { status: Some(404), message: "404".to_string() });
    assert!(!is_forbidden(&e));
    let e = Error::Network(NetworkError { status: None, message: "timeout".to_string() });
    assert!(!is_forbidden(&e));
    assert!(!is_forbidden(&Error::Io(IoError { message: "disk".to_string() })));
    assert!(!is_forbidden(&Error::AccountBanned));
}
