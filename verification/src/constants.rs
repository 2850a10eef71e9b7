//! Addresses and markers of the FuOverflow site.

use vstd::prelude::*;

verus! {

/// Origin of every request; relative paths are appended to it.
pub const BASE_URL: &'static str = "https://fuoverflow.com";

/// The forum's home page, whose cookies make up the session.
pub const HOME_URL: &'static str = "https://fuoverflow.com/";

/// The page that serves the login form and its CSRF token.
pub const LOGIN_URL: &'static str = "https://fuoverflow.com/login/";

/// The endpoint the login form posts to.
pub const LOGIN_EP: &'static str = "https://fuoverflow.com/login/login";

/// Where the site is asked to send the browser after logging in.
pub const XF_REDIRECT: &'static str = "https://fuoverflow.com/";

/// The browser identity sent with every request.
pub const USER_AGENT: &'static str = "Mozilla/5.0 (Windows NT 10.0; Win64; x64) AppleWebKit/537.36 (KHTML, like Gecko) Chrome/124.0.0.0 Safari/537.36";

/// Text that only the site's automatic ban page contains.
pub const BAN_MARKER: &'static str = "anti-crawl-appeal";

} // verus!
