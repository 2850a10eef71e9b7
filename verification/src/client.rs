//! The decisions of the forum client: what it sends, how it reads what comes
//! back, and when it stops.

use std::time::Duration;

use vstd::prelude::*;

use crate::constants::{BAN_MARKER, BASE_URL, HOME_URL, USER_AGENT};
use crate::error::Error;
use crate::forum::{parse_threads, parse_threads_spec, total_pages, total_pages_spec};
use crate::model::{
    attachment_views, opt_view, thread_views, Attachment, AttachmentView, ForumPage, Thread,
    ThreadPage, ThreadView,
};
use crate::thread::{
    parse_attachments, parse_attachments_spec, parse_thread_title, thread_title_spec,
};
use crate::text::{
    ascii_lower_seq, ascii_lowercase, chars_of, collapse_whitespace, contains, contains_chars,
    decimal, find, find_chars, join, prefix_upto, push_all, push_str, split_char, split_char_exec,
    string_of, take_chars, trim, trimmed, u32_chars, views, words,
};

verus! {

broadcast use vstd::string::group_string_axioms;

/// The attribute that carries the CSRF token on the root element (XenForo 2.2+).
pub const CSRF_ATTRIBUTE: &'static str = "data-csrf=\"";

/// The hidden form input that carries the CSRF token on older templates.
pub const CSRF_INPUT: &'static str = "name=\"_xfToken\" value=\"";

/// Opening tag of the page title.
pub const TITLE_OPEN: &'static str = "<title>";

/// Closing tag of the page title.
pub const TITLE_CLOSE: &'static str = "</title>";

// ---------------------------------------------------------------------------
// Page classification
// ---------------------------------------------------------------------------

/// Whether `html` is the site's automatic ban page.
pub open spec fn is_banned_spec(html: Seq<char>) -> bool {
    contains(html, BAN_MARKER@)
}

/// Whether `html` is the site's automatic ban page.
pub fn is_banned(html: &str) -> (r: bool)
    ensures
        r == is_banned_spec(html@),
{
    let h = chars_of(html);
    let m = chars_of(BAN_MARKER);
    contains_chars(h.as_slice(), m.as_slice())
}

/// Whether `html` is a bot-check interstitial rather than the login form:
/// its ASCII-lowercased text holds one of the challenge markers. The
/// Turnstile script host (`challenge-platform`) is deliberately not one of
/// them, since the real login page embeds it.
pub open spec fn is_bot_check_spec(html: Seq<char>) -> bool {
    let lower = ascii_lower_seq(html);
    ||| contains(lower, "just a moment"@)
    ||| contains(lower, "cf-chl-"@)
    ||| contains(lower, "cf-browser-verification"@)
    ||| contains(lower, "captcha"@)
}

/// Whether `html` is a bot-check interstitial rather than the login form.
pub fn is_bot_check(html: &str) -> (r: bool)
    ensures
        r == is_bot_check_spec(html@),
{
    let h = chars_of(html);
    let lower = ascii_lowercase(h.as_slice());
    let l = lower.as_slice();
    let m1 = chars_of("just a moment");
    let m2 = chars_of("cf-chl-");
    let m3 = chars_of("cf-browser-verification");
    let m4 = chars_of("captcha");
    contains_chars(l, m1.as_slice()) || contains_chars(l, m2.as_slice()) || contains_chars(
        l,
        m3.as_slice(),
    ) || contains_chars(l, m4.as_slice())
}

// ---------------------------------------------------------------------------
// CSRF token
// ---------------------------------------------------------------------------

/// The text between the first occurrence of `marker` in `h` and the next
/// double quote after it.
pub open spec fn text_after(h: Seq<char>, marker: Seq<char>) -> Option<Seq<char>> {
    match find(h, marker) {
        Some(i) => {
            let rest = h.skip(i + marker.len());
            match find(rest, seq!['"']) {
                Some(j) => Some(rest.take(j)),
                None => None,
            }
        },
        None => None,
    }
}

/// The login page's CSRF token: the `data-csrf` attribute, else the
/// `_xfToken` input.
pub open spec fn csrf_token_spec(h: Seq<char>) -> Option<Seq<char>> {
    match text_after(h, CSRF_ATTRIBUTE@) {
        Some(t) => Some(t),
        None => text_after(h, CSRF_INPUT@),
    }
}

fn text_after_exec(h: &[char], marker: &str) -> (r: Option<Vec<char>>)
    ensures
        r matches Some(t) ==> text_after(h@, marker@) == Some(t@),
        r is None ==> text_after(h@, marker@) is None,
{
    let m = chars_of(marker);
    let hl = h.len();
    match find_chars(h, m.as_slice(), 0) {
        Some(i) => {
            let start = i + m.len();
            let rest = vstd::slice::slice_subrange(h, start, h.len());
            assert(rest@ == h@.skip(start as int));
            let mut quote: Vec<char> = Vec::new();
            quote.push('"');
            assert(quote@ == seq!['"']);
            match find_chars(rest, quote.as_slice(), 0) {
                Some(j) => {
                    let mut out: Vec<char> = Vec::new();
                    push_all(&mut out, vstd::slice::slice_subrange(rest, 0, j));
                    Some(out)
                },
                None => None,
            }
        },
        None => None,
    }
}

/// The CSRF token of the login page `html`, or `CsrfTokenNotFound`.
pub fn extract_csrf_token(html: &str) -> (r: Result<String, Error>)
    ensures
        r matches Ok(t) ==> csrf_token_spec(html@) == Some(t@),
        r matches Err(e) ==> csrf_token_spec(html@) is None && e is CsrfTokenNotFound,
{
    let h = chars_of(html);
    if let Some(t) = text_after_exec(h.as_slice(), CSRF_ATTRIBUTE) {
        return Ok(string_of(t.as_slice()));
    }
    if let Some(t) = text_after_exec(h.as_slice(), CSRF_INPUT) {
        return Ok(string_of(t.as_slice()));
    }
    Err(Error::CsrfTokenNotFound)
}

// ---------------------------------------------------------------------------
// Page preview
// ---------------------------------------------------------------------------

/// The raw text between `<title>` and the next `</title>`, when both occur.
pub open spec fn title_text(h: Seq<char>) -> Option<Seq<char>> {
    match find(h, TITLE_OPEN@) {
        Some(s) => {
            let after = h.skip(s + TITLE_OPEN@.len());
            match find(after, TITLE_CLOSE@) {
                Some(e) => Some(after.take(e)),
                None => None,
            }
        },
        None => None,
    }
}

/// What a preview is made from: the trimmed title when it is not empty, else
/// the first 160 characters of the page.
pub open spec fn preview_source(h: Seq<char>) -> Seq<char> {
    match title_text(h) {
        Some(t) if trim(t).len() > 0 => trim(t),
        _ => prefix_upto(h, 160),
    }
}

/// A one-line preview of an unexpected page: its whitespace collapsed to
/// single spaces, cut to 200 characters.
pub open spec fn page_preview_spec(h: Seq<char>) -> Seq<char> {
    prefix_upto(join(words(preview_source(h)), seq![' ']), 200)
}

/// A one-line preview of an unexpected page, for error messages.
pub fn page_preview(html: &str) -> (r: String)
    ensures
        r@ == page_preview_spec(html@),
{
    let h = chars_of(html);
    let title = text_between_title(h.as_slice());
    let source = match title {
        Some(t) => {
            let tt = trimmed(t.as_slice());
            if tt.len() > 0 {
                tt
            } else {
                take_chars(h.as_slice(), 160)
            }
        },
        None => take_chars(h.as_slice(), 160),
    };
    assert(source@ == preview_source(h@));
    let collapsed = collapse_whitespace(source.as_slice());
    let cut = take_chars(collapsed.as_slice(), 200);
    string_of(cut.as_slice())
}

fn text_between_title(h: &[char]) -> (r: Option<Vec<char>>)
    ensures
        r matches Some(t) ==> title_text(h@) == Some(t@),
        r is None ==> title_text(h@) is None,
{
    let open = chars_of(TITLE_OPEN);
    let close = chars_of(TITLE_CLOSE);
    let hl = h.len();
    match find_chars(h, open.as_slice(), 0) {
        Some(s) => {
            let start = s + open.len();
            let after = vstd::slice::slice_subrange(h, start, h.len());
            assert(after@ == h@.skip(start as int));
            match find_chars(after, close.as_slice(), 0) {
                Some(e) => {
                    let mut out: Vec<char> = Vec::new();
                    push_all(&mut out, vstd::slice::slice_subrange(after, 0, e));
                    Some(out)
                },
                None => None,
            }
        },
        None => None,
    }
}

// ---------------------------------------------------------------------------
// Client configuration
// ---------------------------------------------------------------------------

/// The duration of `ms` milliseconds.
pub uninterp spec fn millis(ms: u64) -> Duration;

/// `Duration::from_millis`: claims only that the result is the named
/// function of `ms`.
#[verifier::external_body]
pub(crate) fn duration_from_millis(ms: u64) -> (d: Duration)
    ensures
        d == millis(ms),
{
    Duration::from_millis(ms)
}

/// The pause taken before each request unless configured otherwise.
pub const DEFAULT_DELAY_MS: u64 = 500;

/// How a client is to be built: the browser identity it sends, an optional
/// request timeout, the pause before each request and the cookies it starts
/// with (each a `Set-Cookie` value and the URL it belongs to).
#[derive(Debug)]
pub struct FuoClientBuilder {
    user_agent: String,
    timeout: Option<Duration>,
    delay: Duration,
    cookies: Vec<(String, String)>,
}

/// The mathematical value of a [`FuoClientBuilder`].
pub struct FuoClientBuilderView {
    pub user_agent: Seq<char>,
    pub timeout: Option<Duration>,
    pub delay: Duration,
    pub cookies: Seq<(Seq<char>, Seq<char>)>,
}

/// The views of a list of string pairs.
pub open spec fn pair_views(v: Seq<(String, String)>) -> Seq<(Seq<char>, Seq<char>)> {
    v.map_values(|p: (String, String)| (p.0@, p.1@))
}

impl View for FuoClientBuilder {
    type V = FuoClientBuilderView;

    closed spec fn view(&self) -> FuoClientBuilderView {
        FuoClientBuilderView {
            user_agent: self.user_agent@,
            timeout: self.timeout,
            delay: self.delay,
            cookies: pair_views(self.cookies@),
        }
    }
}

impl Default for FuoClientBuilder {
    /// The site's usual browser identity, no timeout, a 500 ms pause and no
    /// cookies.
    fn default() -> (r: Self)
        ensures
            r@ == (FuoClientBuilderView {
                user_agent: USER_AGENT@,
                timeout: None,
                delay: millis(DEFAULT_DELAY_MS),
                cookies: seq![],
            }),
    {
        let b = FuoClientBuilder {
            user_agent: USER_AGENT.to_owned(),
            timeout: None,
            delay: duration_from_millis(DEFAULT_DELAY_MS),
            cookies: Vec::new(),
        };
        assert(pair_views(b.cookies@) =~= seq![]);
        b
    }
}

impl FuoClientBuilder {
    /// Sets the browser identity.
    #[must_use]
    pub fn user_agent(self, user_agent: &str) -> (r: Self)
        ensures
            r@ == (FuoClientBuilderView { user_agent: user_agent@, ..self@ }),
    {
        let mut b = self;
        b.user_agent = user_agent.to_owned();
        b
    }

    /// Sets the request timeout.
    #[must_use]
    pub fn timeout(self, timeout: Duration) -> (r: Self)
        ensures
            r@ == (FuoClientBuilderView { timeout: Some(timeout), ..self@ }),
    {
        let mut b = self;
        b.timeout = Some(timeout);
        b
    }

    /// Sets the pause taken before each request.
    #[must_use]
    pub fn delay(self, delay: Duration) -> (r: Self)
        ensures
            r@ == (FuoClientBuilderView { delay, ..self@ }),
    {
        let mut b = self;
        b.delay = delay;
        b
    }

    /// Adds a cookie (a `Set-Cookie` value) for `url`.
    #[must_use]
    pub fn cookie(self, cookie: &str, url: &str) -> (r: Self)
        ensures
            r@ == (FuoClientBuilderView {
                cookies: self@.cookies.push((cookie@, url@)),
                ..self@
            }),
    {
        let mut b = self;
        let ghost old_cookies = b.cookies@;
        b.cookies.push((cookie.to_owned(), url.to_owned()));
        assert(pair_views(b.cookies@) =~= pair_views(old_cookies).push((cookie@, url@)));
        b
    }

    /// The settings, for building the client: browser identity, timeout,
    /// pause and cookies.
    pub fn into_parts(self) -> (r: (String, Option<Duration>, Duration, Vec<(String, String)>))
        ensures
            r.0@ == self@.user_agent,
            r.1 == self@.timeout,
            r.2 == self@.delay,
            pair_views(r.3@) == self@.cookies,
    {
        (self.user_agent, self.timeout, self.delay, self.cookies)
    }
}

// ---------------------------------------------------------------------------
// Addresses
// ---------------------------------------------------------------------------

/// Where a `Location` header leads: a path is taken relative to the site.
pub open spec fn resolve_location_spec(location: Seq<char>) -> Seq<char> {
    if location.len() > 0 && location[0] == '/' {
        BASE_URL@ + location
    } else {
        location
    }
}

/// Where a `Location` header leads.
pub fn resolve_location(location: &str) -> (r: String)
    ensures
        r@ == resolve_location_spec(location@),
{
    let v = chars_of(location);
    if v.len() > 0 && v[0] == '/' {
        let mut out: Vec<char> = Vec::new();
        push_str(&mut out, BASE_URL);
        push_all(&mut out, v.as_slice());
        string_of(out.as_slice())
    } else {
        string_of(v.as_slice())
    }
}

/// The full address of a site path.
pub fn site_url(path: &str) -> (r: String)
    ensures
        r@ == BASE_URL@ + path@,
{
    let mut out: Vec<char> = Vec::new();
    push_str(&mut out, BASE_URL);
    push_str(&mut out, path);
    string_of(out.as_slice())
}

/// The `Location` header of a response.
#[derive(Debug)]
pub enum LocationHeader {
    /// The response has none.
    Missing,
    /// The header's value, as text.
    Text(String),
    /// The header is present but is not visible ASCII.
    Unreadable,
}

// ---------------------------------------------------------------------------
// Following redirects
// ---------------------------------------------------------------------------

/// The most requests one fetch sends, redirects included.
pub const MAX_REQUESTS: u32 = 10;

/// What a fetch does next.
#[derive(Debug)]
pub enum FetchAction {
    /// Send a GET request to this address.
    Send(String),
    /// The last response is the answer.
    Accept,
    /// Give up with this error.
    Fail(Error),
}

/// A fetch of one site path that follows redirects by hand.
#[derive(Debug)]
pub struct Redirects {
    url: String,
    sent: u32,
}

impl Redirects {
    /// The address the next request goes to.
    pub closed spec fn url_spec(&self) -> Seq<char> {
        self.url@
    }

    /// How many requests have been sent.
    pub closed spec fn sent_spec(&self) -> u32 {
        self.sent
    }

    /// A fetch is never past its request budget.
    pub open spec fn wf(&self) -> bool {
        self.sent_spec() <= MAX_REQUESTS
    }

    /// A fetch of `path`, before its first request.
    pub fn new(path: &str) -> (r: Self)
        ensures
            r.wf(),
            r.sent_spec() == 0,
            r.url_spec() == BASE_URL@ + path@,
    {
        Redirects { url: site_url(path), sent: 0 }
    }

    /// The first request.
    pub fn start(&mut self) -> (a: FetchAction)
        requires
            old(self).wf(),
            old(self).sent_spec() == 0,
        ensures
            final(self).wf(),
            final(self).sent_spec() == 1,
            final(self).sent_spec() <= MAX_REQUESTS,
            final(self).url_spec() == old(self).url_spec(),
            a matches FetchAction::Send(u) && u@ == old(self).url_spec(),
    {
        self.sent = 1;
        FetchAction::Send(self.url.clone())
    }

    /// What to do after a response: accept it unless it is a redirect; follow
    /// a redirect to its `Location` while the budget of [`MAX_REQUESTS`]
    /// lasts; fail on a redirect without a readable `Location`.
    pub fn on_response(&mut self, redirect: bool, location: &LocationHeader) -> (a: FetchAction)
        requires
            old(self).wf(),
        ensures
            final(self).wf(),
            final(self).sent_spec() <= MAX_REQUESTS,
            !redirect ==> a is Accept && final(self).sent_spec() == old(self).sent_spec()
                && final(self).url_spec() == old(self).url_spec(),
            redirect && !(location is Text) ==> (a matches FetchAction::Fail(e)
                && e is InvalidRedirect),
            redirect && location is Text && old(self).sent_spec() >= MAX_REQUESTS ==> (a matches FetchAction::Fail(e) && e is TooManyRedirects),
            redirect && old(self).sent_spec() < MAX_REQUESTS ==> (location matches LocationHeader::Text(l)
                ==> (a matches FetchAction::Send(u) && u@ == resolve_location_spec(l@)
                && final(self).url_spec() == u@ && final(self).sent_spec() == old(self).sent_spec() + 1)),
            a is Send ==> final(self).sent_spec() == old(self).sent_spec() + 1,
            !(a is Send) ==> final(self).sent_spec() == old(self).sent_spec()
                && final(self).url_spec() == old(self).url_spec(),
    {
        if !redirect {
            return FetchAction::Accept;
        }
        match location {
            LocationHeader::Text(l) => {
                if self.sent >= MAX_REQUESTS {
                    FetchAction::Fail(Error::TooManyRedirects)
                } else {
                    self.url = resolve_location(l.as_str());
                    self.sent = self.sent + 1;
                    FetchAction::Send(self.url.clone())
                }
            },
            _ => FetchAction::Fail(Error::InvalidRedirect),
        }
    }
}

// ---------------------------------------------------------------------------
// Session and login
// ---------------------------------------------------------------------------

/// What the client knows of its session.
#[derive(Debug, Clone, Copy)]
pub struct Session {
    authenticated: bool,
    banned: bool,
}

/// What the login flow does next.
#[derive(Debug)]
pub enum LoginAction {
    /// Load this page, where the site sent the browser after logging in.
    Visit(String),
    /// The session is logged in.
    Done,
    /// The login failed.
    Fail(Error),
}

/// The cookie that a logged-in session carries.
pub const USER_COOKIE: &'static str = "xf_user=";

impl Session {
    /// Whether a login has succeeded in this session.
    pub closed spec fn authenticated_spec(&self) -> bool {
        self.authenticated
    }

    /// Whether the site has reported the account as banned.
    pub closed spec fn banned_spec(&self) -> bool {
        self.banned
    }

    /// A session that has not logged in.
    pub fn new() -> (r: Self)
        ensures
            !r.authenticated_spec(),
            !r.banned_spec(),
    {
        Session { authenticated: false, banned: false }
    }

    /// Whether the site has reported the account as banned.
    pub fn is_banned(&self) -> (r: bool)
        ensures
            r == self.banned_spec(),
    {
        self.banned
    }

    /// Whether the session is logged in, given the `Cookie` header the client
    /// sends to the home page: a login succeeded, or a user cookie is set.
    pub fn is_logged_in(&self, cookie_header: &str) -> (r: bool)
        ensures
            r == (self.authenticated_spec() || contains(cookie_header@, USER_COOKIE@)),
    {
        if self.authenticated {
            return true;
        }
        let h = chars_of(cookie_header);
        let m = chars_of(USER_COOKIE);
        contains_chars(h.as_slice(), m.as_slice())
    }

    /// The answer to the login form: anything but a redirect means the
    /// credentials were refused; a redirect is followed to where it leads
    /// (the home page when the header is unreadable); without one the login
    /// is done.
    pub fn on_login_response(&mut self, redirect: bool, location: &LocationHeader) -> (a: LoginAction)
        ensures
            !redirect ==> (a matches LoginAction::Fail(e) && e is InvalidCredentials)
                && final(self).authenticated_spec() == old(self).authenticated_spec(),
            redirect ==> (location matches LocationHeader::Text(l) ==> (a matches LoginAction::Visit(
                u,
            ) && u@ == resolve_location_spec(l@))),
            redirect ==> (location is Unreadable ==> (a matches LoginAction::Visit(u) && u@
                == resolve_location_spec(HOME_URL@))),
            redirect && location is Missing ==> a is Done && final(self).authenticated_spec(),
            !(a is Done) ==> final(self).authenticated_spec() == old(self).authenticated_spec(),
            final(self).banned_spec() == old(self).banned_spec(),
    {
        if !redirect {
            return LoginAction::Fail(Error::InvalidCredentials);
        }
        match location {
            LocationHeader::Text(l) => LoginAction::Visit(resolve_location(l.as_str())),
            LocationHeader::Unreadable => LoginAction::Visit(resolve_location(HOME_URL)),
            LocationHeader::Missing => {
                self.authenticated = true;
                LoginAction::Done
            },
        }
    }

    /// The page reached after logging in: the ban page marks the account
    /// banned and fails the login; any other page completes it.
    pub fn on_landing_page(&mut self, html: &str) -> (a: LoginAction)
        ensures
            is_banned_spec(html@) ==> (a matches LoginAction::Fail(e) && e is AccountBanned)
                && final(self).banned_spec() && final(self).authenticated_spec()
                == old(self).authenticated_spec(),
            !is_banned_spec(html@) ==> a is Done && final(self).authenticated_spec()
                && final(self).banned_spec() == old(self).banned_spec(),
    {
        if is_banned(html) {
            self.banned = true;
            LoginAction::Fail(Error::AccountBanned)
        } else {
            self.authenticated = true;
            LoginAction::Done
        }
    }
}

/// The CSRF token of the login page `html`, or why there is none: the ban
/// page, a bot check, or an unexpected page (with a preview of it).
pub fn login_page_token(html: &str) -> (r: Result<String, Error>)
    ensures
        is_banned_spec(html@) ==> (r matches Err(e) && e is AccountBanned),
        !is_banned_spec(html@) && is_bot_check_spec(html@) ==> (r matches Err(e) && e is BotChallenge),
        !is_banned_spec(html@) && !is_bot_check_spec(html@) ==> match csrf_token_spec(html@) {
            Some(t) => (r matches Ok(s) && s@ == t),
            None => (r matches Err(Error::UnexpectedLoginPage { preview }) && preview@
                == page_preview_spec(html@)),
        },
{
    if is_banned(html) {
        return Err(Error::AccountBanned);
    }
    if is_bot_check(html) {
        return Err(Error::BotChallenge);
    }
    match extract_csrf_token(html) {
        Ok(t) => Ok(t),
        Err(_) => Err(Error::UnexpectedLoginPage { preview: page_preview(html) }),
    }
}

/// A page as the client hands it out: the ban page becomes `AccountBanned`.
pub fn checked_page(html: String) -> (r: Result<String, Error>)
    ensures
        is_banned_spec(html@) ==> (r matches Err(e) && e is AccountBanned),
        !is_banned_spec(html@) ==> (r matches Ok(s) && s@ == html@),
{
    if is_banned(html.as_str()) {
        Err(Error::AccountBanned)
    } else {
        Ok(html)
    }
}

// ---------------------------------------------------------------------------
// Cookies
// ---------------------------------------------------------------------------

/// The attribute appended to each restored cookie.
pub const COOKIE_PATH: &'static str = "; Path=/";

/// The cookies to restore from a saved `name=value; name=value` header, each
/// trimmed, empty ones skipped, scoped to the whole site.
pub open spec fn cookie_directives_of(parts: Seq<Seq<char>>) -> Seq<Seq<char>>
    decreases parts.len(),
{
    if parts.len() == 0 {
        seq![]
    } else {
        let prev = cookie_directives_of(parts.drop_last());
        let p = trim(parts.last());
        if p.len() > 0 {
            prev.push(p + COOKIE_PATH@)
        } else {
            prev
        }
    }
}

/// The `Set-Cookie` values that restore a saved cookie header.
pub open spec fn cookie_directives_spec(cookies: Seq<char>) -> Seq<Seq<char>> {
    cookie_directives_of(split_char(cookies, ';'))
}

/// The `Set-Cookie` values that restore a saved cookie header.
pub fn cookie_directives(cookies: &str) -> (r: Vec<String>)
    ensures
        crate::scrape::string_views(r@) == cookie_directives_spec(cookies@),
{
    let v = chars_of(cookies);
    let parts = split_char_exec(v.as_slice(), ';');
    let suffix = chars_of(COOKIE_PATH);
    let n = parts.len();
    let ghost ps = views(parts@);
    let mut out: Vec<String> = Vec::new();
    for i in 0..n
        invariant
            n == parts@.len(),
            ps == views(parts@),
            suffix@ == COOKIE_PATH@,
            crate::scrape::string_views(out@) == cookie_directives_of(ps.take(i as int)),
    {
        assert(ps.take(i + 1).drop_last() == ps.take(i as int));
        assert(ps.take(i + 1).last() == parts@[i as int]@);
        let mut p = trimmed(parts[i].as_slice());
        if p.len() > 0 {
            push_all(&mut p, suffix.as_slice());
            let ghost before = out@;
            let s = string_of(p.as_slice());
            out.push(s);
            assert(crate::scrape::string_views(out@) =~= crate::scrape::string_views(before).push(s@));
        }
    }
    assert(ps.take(n as int) == ps);
    out
}

// ---------------------------------------------------------------------------
// Site paths
// ---------------------------------------------------------------------------

/// `s` in upper case, by Unicode's full case mapping.
pub uninterp spec fn upper_case(s: Seq<char>) -> Seq<char>;

/// `str::to_uppercase`: claims only that the result is the named function of
/// `s`.
#[verifier::external_body]
pub(crate) fn to_uppercase(s: &str) -> (r: String)
    ensures
        r@ == upper_case(s@),
{
    s.to_uppercase()
}

/// The path of page `page` of a subject's forum: `/forums/<SUBJECT>/` for
/// the first page, `/forums/<SUBJECT>/page-<n>` for the others.
pub open spec fn forum_path_spec(subject: Seq<char>, page: u32) -> Seq<char> {
    if page <= 1 {
        "/forums/"@ + upper_case(subject) + "/"@
    } else {
        "/forums/"@ + upper_case(subject) + "/page-"@ + decimal(page as nat)
    }
}

/// The path of page `page` of a subject's forum.
pub fn forum_path(subject: &str, page: u32) -> (r: String)
    ensures
        r@ == forum_path_spec(subject@, page),
{
    let upper = to_uppercase(subject);
    let mut out: Vec<char> = Vec::new();
    push_str(&mut out, "/forums/");
    push_str(&mut out, upper.as_str());
    if page <= 1 {
        push_str(&mut out, "/");
    } else {
        push_str(&mut out, "/page-");
        let digits = u32_chars(page);
        push_all(&mut out, digits.as_slice());
    }
    string_of(out.as_slice())
}

/// The path of a thread's own page: `/threads/t.<id>/`.
pub open spec fn thread_path_spec(id: u32) -> Seq<char> {
    "/threads/t."@ + decimal(id as nat) + "/"@
}

/// The path of a thread's own page.
pub fn thread_path(id: u32) -> (r: String)
    ensures
        r@ == thread_path_spec(id),
{
    let mut out: Vec<char> = Vec::new();
    push_str(&mut out, "/threads/t.");
    let digits = u32_chars(id);
    push_all(&mut out, digits.as_slice());
    push_str(&mut out, "/");
    string_of(out.as_slice())
}

/// The path of the comments of an attachment's media page,
/// `/media/<slug>.<id>/?lightbox=1`, when the attachment has one.
pub open spec fn comments_path_spec(a: AttachmentView) -> Option<Seq<char>> {
    match (a.media_slug, a.media_id) {
        (Some(slug), Some(id)) => Some("/media/"@ + slug + "."@ + decimal(id as nat) + "/?lightbox=1"@),
        _ => None,
    }
}

/// The path of the comments of an attachment's media page.
pub fn comments_path(a: &Attachment) -> (r: Option<String>)
    ensures
        opt_view(r) == comments_path_spec(a@),
{
    match (&a.media_slug, a.media_id) {
        (Some(slug), Some(id)) => {
            let mut out: Vec<char> = Vec::new();
            push_str(&mut out, "/media/");
            push_str(&mut out, slug.as_str());
            push_str(&mut out, ".");
            let digits = u32_chars(id);
            push_all(&mut out, digits.as_slice());
            push_str(&mut out, "/?lightbox=1");
            Some(string_of(out.as_slice()))
        },
        _ => None,
    }
}

// ---------------------------------------------------------------------------
// Pages
// ---------------------------------------------------------------------------

/// Page `page` of a subject's thread list, read from its HTML.
pub fn forum_page(html: &str, page: u32) -> (r: ForumPage)
    ensures
        thread_views(r.threads@) == parse_threads_spec(html@),
        r.page == page,
        r.total_pages == total_pages_spec(html@),
{
    ForumPage { threads: parse_threads(html), page, total_pages: total_pages(html) }
}

/// A thread's own page, read from its HTML.
pub fn thread_page(html: &str) -> (r: ThreadPage)
    ensures
        r.title@ == thread_title_spec(html@),
        attachment_views(r.attachments@) == parse_attachments_spec(html@),
{
    ThreadPage { title: parse_thread_title(html), attachments: parse_attachments(html) }
}

// ---------------------------------------------------------------------------
// Searching a subject
// ---------------------------------------------------------------------------

/// The threads of a subject gathered page by page: the first page's threads,
/// then those of pages 2 to its page count, in order.
#[derive(Debug)]
pub struct SubjectSearch {
    threads: Vec<Thread>,
    next: u64,
    last: u32,
}

impl SubjectSearch {
    /// The threads gathered so far.
    pub closed spec fn threads_spec(&self) -> Seq<ThreadView> {
        thread_views(self.threads@)
    }

    /// The page to fetch next.
    pub closed spec fn next_spec(&self) -> nat {
        self.next as nat
    }

    /// The last page to fetch.
    pub closed spec fn last_spec(&self) -> nat {
        self.last as nat
    }

    /// Pages are fetched from 2 up to one past the page count.
    pub open spec fn wf(&self) -> bool {
        2 <= self.next_spec() <= (if self.last_spec() >= 2 {
            self.last_spec() + 1
        } else {
            2
        })
    }

    /// A search whose first page is `first`.
    pub fn start(first: ForumPage) -> (r: Self)
        ensures
            r.wf(),
            r.threads_spec() == thread_views(first.threads@),
            r.next_spec() == 2,
            r.last_spec() == first.total_pages,
    {
        SubjectSearch { threads: first.threads, next: 2, last: first.total_pages }
    }

    /// The page to fetch next, while some remain.
    pub fn next_page(&self) -> (r: Option<u32>)
        requires
            self.wf(),
        ensures
            r matches Some(p) ==> p == self.next_spec() && p <= self.last_spec(),
            r is None ==> self.next_spec() > self.last_spec(),
    {
        if self.next <= self.last as u64 {
            Some(self.next as u32)
        } else {
            None
        }
    }

    /// Adds the threads of the page just fetched.
    pub fn add_page(&mut self, page: ForumPage)
        requires
            old(self).wf(),
            old(self).next_spec() <= old(self).last_spec(),
        ensures
            final(self).wf(),
            final(self).threads_spec() == old(self).threads_spec() + thread_views(page.threads@),
            final(self).next_spec() == old(self).next_spec() + 1,
            final(self).last_spec() == old(self).last_spec(),
    {
        let ghost before = thread_views(self.threads@);
        let mut more = page.threads;
        let ghost added = thread_views(more@);
        let ghost raw_before = self.threads@;
        let ghost raw_more = more@;
        self.threads.append(&mut more);
        assert(self.threads@ == raw_before + raw_more);
        assert(thread_views(self.threads@) =~= before + added);
        self.next = self.next + 1;
    }

    /// All the threads gathered.
    pub fn finish(self) -> (r: Vec<Thread>)
        ensures
            thread_views(r@) == self.threads_spec(),
    {
        self.threads
    }
}

} // verus!
