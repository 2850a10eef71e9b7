//! The login form.

use vstd::prelude::*;

use crate::constants::XF_REDIRECT;

verus! {

broadcast use vstd::string::group_string_axioms;

/// The fields posted to log in.
#[derive(Debug)]
pub struct LoginRequest {
    xf_token: String,
    login: String,
    password: String,
    remember: bool,
    xf_redirect: String,
}

/// The mathematical value of a [`LoginRequest`].
pub struct LoginRequestView {
    pub xf_token: Seq<char>,
    pub login: Seq<char>,
    pub password: Seq<char>,
    pub remember: bool,
    pub xf_redirect: Seq<char>,
}

impl View for LoginRequest {
    type V = LoginRequestView;

    closed spec fn view(&self) -> LoginRequestView {
        LoginRequestView {
            xf_token: self.xf_token@,
            login: self.login@,
            password: self.password@,
            remember: self.remember,
            xf_redirect: self.xf_redirect@,
        }
    }
}

/// The views of the name/value pairs of a form.
pub open spec fn form_view(f: Seq<(&'static str, String)>) -> Seq<(Seq<char>, Seq<char>)> {
    f.map_values(|p: (&'static str, String)| (p.0@, p.1@))
}

/// The value posted for the "remember me" box.
pub open spec fn remember_value(remember: bool) -> Seq<char> {
    if remember {
        "1"@
    } else {
        "0"@
    }
}

/// The form fields of a request, in the order they are posted.
pub open spec fn login_form(r: LoginRequestView) -> Seq<(Seq<char>, Seq<char>)> {
    seq![
        ("_xfToken"@, r.xf_token),
        ("login"@, r.login),
        ("password"@, r.password),
        ("remember"@, remember_value(r.remember)),
        ("_xfRedirect"@, r.xf_redirect),
    ]
}

impl LoginRequest {
    /// A login request with the CSRF token `xf_token`, asking to be sent back
    /// to the home page afterwards.
    pub fn new(xf_token: &str, login: &str, password: &str, remember: bool) -> (r: Self)
        ensures
            r@ == (LoginRequestView {
                xf_token: xf_token@,
                login: login@,
                password: password@,
                remember,
                xf_redirect: XF_REDIRECT@,
            }),
    {
        LoginRequest {
            xf_token: xf_token.to_owned(),
            login: login.to_owned(),
            password: password.to_owned(),
            remember,
            xf_redirect: XF_REDIRECT.to_owned(),
        }
    }

    /// The name/value pairs to post, in order.
    pub fn to_form(&self) -> (r: Vec<(&'static str, String)>)
        ensures
            form_view(r@) == login_form(self@),
    {
        let remember = if self.remember {
            "1".to_owned()
        } else {
            "0".to_owned()
        };
        let mut form: Vec<(&'static str, String)> = Vec::new();
        form.push(("_xfToken", self.xf_token.clone()));
        form.push(("login", self.login.clone()));
        form.push(("password", self.password.clone()));
        form.push(("remember", remember));
        form.push(("_xfRedirect", self.xf_redirect.clone()));
        assert(form_view(form@) =~= login_form(self@));
        form
    }
}

} // verus!
