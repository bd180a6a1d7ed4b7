//! The decisions of the portal's sign-in handshake.
//!
//! The handshake fetches the login page, posts the credentials with the page's
//! anti-forgery token, checks that the portal set a session cookie, and reads the
//! signing hash and profile from an authenticated page. The network calls are made by
//! the caller; this module decides what to send and what the answers mean.

use vstd::prelude::*;
use crate::html::{first_attr, first_attr_of, parse_page};
use crate::markup::{regex_capture, regex_capture_of};
use crate::text::{contains, contains_spec, trim, trim_spec};
use crate::types::{CampusLoginData, UserBasicInfo};

verus! {

/// Why a sign-in failed.
#[derive(Clone, Copy, Debug, PartialEq, Eq, Structural)]
pub enum AuthError {
    /// The portal refused the username or password.
    InvalidCredentials,
    /// The portal could not be reached, or answered with an error status.
    UpstreamUnreachable,
    /// A page lacked an element that the handshake needs.
    UpstreamFormatError,
    /// The authenticated page holds no signing hash.
    HashNotFound,
    /// The client's cookie jar holds no portal session cookie.
    SessionCookieMissing,
}

impl AuthError {
    /// The HTTP status a caller gets: 401 for refused credentials, 500 for the rest.
    pub fn status_code(&self) -> (r: u16)
        ensures
            r == (if *self == AuthError::InvalidCredentials { 401u16 } else { 500u16 }),
    {
        match self {
            AuthError::InvalidCredentials => 401,
            _ => 500,
        }
    }
}

/// The anti-forgery token that a login page carries, if any.
pub open spec fn xsrf_spec(page: Seq<char>) -> Option<Seq<char>> {
    first_attr_of(page, "input[name=\"sap-login-XSRF\"]"@, "value"@)
}

/// The anti-forgery token of the login page; `UpstreamFormatError` where the page has none.
pub fn xsrf_token(login_page: &str) -> (r: Result<String, AuthError>)
    ensures
        match xsrf_spec(login_page@) {
            Some(v) => (r matches Ok(t) && t@ == v),
            None => r == Err::<String, AuthError>(AuthError::UpstreamFormatError),
        },
{
    let page = parse_page(login_page);
    match first_attr(&page, "input[name=\"sap-login-XSRF\"]", "value") {
        Some(v) => Ok(v),
        None => Err(AuthError::UpstreamFormatError),
    }
}

/// The form the credentials are posted with.
pub fn login_form(login_data: &CampusLoginData, xsrf: &str) -> (r: Vec<(String, String)>)
    ensures
        r@.len() == 3,
        r@[0].0@ == "sap-user"@ && r@[0].1@ == login_data.username@,
        r@[1].0@ == "sap-password"@ && r@[1].1@ == login_data.password@,
        r@[2].0@ == "sap-login-XSRF"@ && r@[2].1@ == xsrf@,
{
    let mut form: Vec<(String, String)> = Vec::new();
    form.push(("sap-user".to_owned(), login_data.username.clone()));
    form.push(("sap-password".to_owned(), login_data.password.clone()));
    form.push(("sap-login-XSRF".to_owned(), xsrf.to_owned()));
    form
}

/// A cookie belongs to the portal where its domain names it; a cookie without a domain does not.
pub open spec fn is_portal_domain(domain: Option<Seq<char>>) -> bool {
    match domain {
        Some(d) => contains_spec(d, "campus-dual.de"@),
        None => false,
    }
}

pub fn portal_domain(domain: &Option<String>) -> (r: bool)
    ensures
        r == is_portal_domain(domain.deep_view()),
{
    match domain {
        Some(d) => contains(d.as_str(), "campus-dual.de"),
        None => false,
    }
}

/// The first cookie, by the domains of the cookies in order, that belongs to the portal.
pub fn first_portal_cookie(domains: &Vec<Option<String>>) -> (r: Option<usize>)
    ensures
        r matches Some(i) ==> i < domains@.len() && is_portal_domain(domains@[i as int].deep_view())
            && forall|j: int| 0 <= j < i ==> !is_portal_domain(#[trigger] domains@[j].deep_view()),
        r is None ==> forall|j: int| 0 <= j < domains@.len() ==> !is_portal_domain(#[trigger] domains@[j].deep_view()),
{
    let mut i: usize = 0;
    while i < domains.len()
        invariant
            i <= domains@.len(),
            forall|j: int| 0 <= j < i ==> !is_portal_domain(#[trigger] domains@[j].deep_view()),
        decreases domains@.len() - i,
    {
        if portal_domain(&domains[i]) {
            return Some(i);
        }
        i = i + 1;
    }
    None
}

/// After the credentials were posted: the sign-in took where the answer set a portal cookie.
pub fn check_login_response(cookie_domains: &Vec<Option<String>>) -> (r: Result<(), AuthError>)
    ensures
        r is Ok <==> exists|j: int| 0 <= j < cookie_domains@.len() && is_portal_domain(#[trigger] cookie_domains@[j].deep_view()),
        r matches Err(e) ==> e == AuthError::InvalidCredentials,
{
    match first_portal_cookie(cookie_domains) {
        Some(i) => Ok(()),
        None => Err(AuthError::InvalidCredentials),
    }
}

/// The session cookie to keep, by the domains of the unexpired cookies in the jar.
pub fn pick_session_cookie(cookie_domains: &Vec<Option<String>>) -> (r: Result<usize, AuthError>)
    ensures
        r matches Ok(i) ==> i < cookie_domains@.len() && is_portal_domain(cookie_domains@[i as int].deep_view())
            && forall|j: int| 0 <= j < i ==> !is_portal_domain(#[trigger] cookie_domains@[j].deep_view()),
        r is Err <==> forall|j: int| 0 <= j < cookie_domains@.len() ==> !is_portal_domain(#[trigger] cookie_domains@[j].deep_view()),
        r matches Err(e) ==> e == AuthError::SessionCookieMissing,
{
    match first_portal_cookie(cookie_domains) {
        Some(i) => Ok(i),
        None => Err(AuthError::SessionCookieMissing),
    }
}

/// Where the authenticated page sets the signing hash and the user id.
pub open spec fn hash_pattern() -> Seq<char> {
    "hash=\"(\\w+)\";user=\"(\\d+)\";"@
}

/// Where the authenticated page shows the name, the seminar group and the course.
pub open spec fn profile_pattern() -> Seq<char> {
    "<strong>Name:\\s*</strong>(\\w+),\\s*(\\w+).*<strong>\\s*Seminargruppe:\\s*</strong>([\\w-]+).*<br>(.*)"@
}

pub open spec fn capture_or_blank(pattern: Seq<char>, page: Seq<char>, group: int) -> Seq<char> {
    match regex_capture_of(pattern, page, group) {
        Some(t) => t,
        None => Seq::empty(),
    }
}

fn capture_or_blank_of(pattern: &str, page: &str, group: usize) -> (r: String)
    ensures
        r@ == capture_or_blank(pattern@, page@, group as int),
{
    match regex_capture(pattern, page, group) {
        Some(t) => t,
        None => String::new(),
    }
}

/// The page shows a signing hash and a user id.
pub open spec fn hash_found(page: Seq<char>) -> bool {
    regex_capture_of(hash_pattern(), page, 1) is Some && regex_capture_of(hash_pattern(), page, 2) is Some
}

/// `hash` and `info` are what the authenticated page `page` shows.
pub open spec fn profile_matches(page: Seq<char>, hash: Seq<char>, info: UserBasicInfo) -> bool {
    &&& regex_capture_of(hash_pattern(), page, 1) == Some(hash)
    &&& regex_capture_of(hash_pattern(), page, 2) == Some(info.user@)
    &&& info.last_name@ == capture_or_blank(profile_pattern(), page, 1)
    &&& info.first_name@ == capture_or_blank(profile_pattern(), page, 2)
    &&& info.seminar_group@ == capture_or_blank(profile_pattern(), page, 3)
    &&& info.seminar_name@ == trim_spec(capture_or_blank(profile_pattern(), page, 4))
}

/// The signing hash and profile that the authenticated page shows. The hash and user id are
/// required; the profile fields are blank where the page does not show them.
pub fn parse_profile_page(page: &str) -> (r: Result<(String, UserBasicInfo), AuthError>)
    ensures
        r is Ok <==> hash_found(page@),
        r matches Err(e) ==> e == AuthError::HashNotFound,
        r matches Ok((hash, info)) ==> profile_matches(page@, hash@, info),
{
    let hash_re = "hash=\"(\\w+)\";user=\"(\\d+)\";";
    let profile_re = "<strong>Name:\\s*</strong>(\\w+),\\s*(\\w+).*<strong>\\s*Seminargruppe:\\s*</strong>([\\w-]+).*<br>(.*)";
    let hash = match regex_capture(hash_re, page, 1) {
        Some(h) => h,
        None => return Err(AuthError::HashNotFound),
    };
    let user = match regex_capture(hash_re, page, 2) {
        Some(u) => u,
        None => return Err(AuthError::HashNotFound),
    };
    let course = capture_or_blank_of(profile_re, page, 4);
    let info = UserBasicInfo {
        first_name: capture_or_blank_of(profile_re, page, 2),
        last_name: capture_or_blank_of(profile_re, page, 1),
        seminar_group: capture_or_blank_of(profile_re, page, 3),
        seminar_name: trim(course.as_str()),
        user,
    };
    Ok((hash, info))
}

// ---------------------------------------------------------------- the handshake

/// Two profiles hold the same texts.
pub open spec fn same_info(a: UserBasicInfo, b: UserBasicInfo) -> bool {
    a.first_name@ == b.first_name@ && a.last_name@ == b.last_name@ && a.seminar_group@
        == b.seminar_group@ && a.seminar_name@ == b.seminar_name@ && a.user@ == b.user@
}

fn copy_info(i: &UserBasicInfo) -> (r: UserBasicInfo)
    ensures
        same_info(r, *i),
{
    UserBasicInfo {
        first_name: i.first_name.clone(),
        last_name: i.last_name.clone(),
        seminar_group: i.seminar_group.clone(),
        seminar_name: i.seminar_name.clone(),
        user: i.user.clone(),
    }
}

/// Where a sign-in stands.
#[derive(Clone, Copy, Debug, PartialEq, Eq, Structural)]
pub enum LoginPhase {
    LoginPageRequested,
    CredentialsPosted,
    ProfileRequested,
    CookieRequested,
    Finished,
    Failed,
}

/// What the caller reports after doing the action it was given.
pub enum LoginEvent {
    /// The body of the page that was fetched.
    Page(String),
    /// The domains of cookies: those the answer to the form set, or those in the jar.
    Cookies(Vec<Option<String>>),
    /// The request failed in transport or with an error status.
    Unreachable,
}

/// What the caller does next.
pub enum LoginAction {
    FetchLoginPage,
    PostCredentials(Vec<(String, String)>),
    FetchProfile,
    /// Report the domains of the unexpired cookies in the client's jar.
    ReadCookieJar,
    /// Signed in: the jar's cookie at `cookie_index` is the session cookie.
    Complete { cookie_index: usize, hash: String, info: UserBasicInfo },
    Fail(AuthError),
}

/// One sign-in in progress. Its steps are strictly ordered; a failed transport is reported,
/// never retried here.
pub struct LoginFlow {
    phase: LoginPhase,
    login_data: CampusLoginData,
    hash: String,
    info: UserBasicInfo,
}

impl LoginFlow {
    pub closed spec fn phase_spec(&self) -> LoginPhase {
        self.phase
    }

    pub closed spec fn login_data_spec(&self) -> CampusLoginData {
        self.login_data
    }

    /// Starts a sign-in: the first action is to fetch the login page.
    pub fn start(login_data: CampusLoginData) -> (r: (LoginFlow, LoginAction))
        ensures
            r.0.phase_spec() == LoginPhase::LoginPageRequested,
            r.0.login_data_spec() == login_data,
            r.1 is FetchLoginPage,
    {
        (
            LoginFlow {
                phase: LoginPhase::LoginPageRequested,
                login_data,
                hash: String::new(),
                info: UserBasicInfo {
                    first_name: String::new(),
                    last_name: String::new(),
                    seminar_group: String::new(),
                    seminar_name: String::new(),
                    user: String::new(),
                },
            },
            LoginAction::FetchLoginPage,
        )
    }

    pub fn phase(&self) -> (r: LoginPhase)
        ensures
            r == self.phase_spec(),
    {
        self.phase
    }

    fn fail(&mut self, e: AuthError) -> (r: LoginAction)
        ensures
            final(self).phase_spec() == LoginPhase::Failed,
            final(self).login_data_spec() == old(self).login_data_spec(),
            r == LoginAction::Fail(e),
    {
        self.phase = LoginPhase::Failed;
        LoginAction::Fail(e)
    }

    /// The hash read from the profile page.
    pub closed spec fn hash_spec(&self) -> Seq<char> {
        self.hash@
    }

    /// The profile read from the profile page.
    pub closed spec fn info_spec(&self) -> UserBasicInfo {
        self.info
    }

    /// The next action, given what came of the last one. Each step has one successor and one
    /// error; a failure ends the sign-in.
    pub fn step(&mut self, event: LoginEvent) -> (r: LoginAction)
        ensures
            final(self).login_data_spec() == old(self).login_data_spec(),
            r matches LoginAction::Fail(_) <==> final(self).phase_spec() == LoginPhase::Failed,
            match (old(self).phase_spec(), event) {
                (_, LoginEvent::Unreachable) => r == LoginAction::Fail(AuthError::UpstreamUnreachable),
                (LoginPhase::LoginPageRequested, LoginEvent::Page(p)) => match xsrf_spec(p@) {
                    Some(x) => final(self).phase_spec() == LoginPhase::CredentialsPosted
                        && (r matches LoginAction::PostCredentials(form) && form@.len() == 3
                        && form@[0].0@ == "sap-user"@ && form@[0].1@ == old(self).login_data_spec().username@
                        && form@[1].0@ == "sap-password"@ && form@[1].1@ == old(self).login_data_spec().password@
                        && form@[2].0@ == "sap-login-XSRF"@ && form@[2].1@ == x),
                    None => r == LoginAction::Fail(AuthError::UpstreamFormatError),
                },
                (LoginPhase::CredentialsPosted, LoginEvent::Cookies(d)) => if exists|j: int|
                    0 <= j < d@.len() && is_portal_domain(#[trigger] d@[j].deep_view()) {
                    r is FetchProfile && final(self).phase_spec() == LoginPhase::ProfileRequested
                } else {
                    r == LoginAction::Fail(AuthError::InvalidCredentials)
                },
                (LoginPhase::ProfileRequested, LoginEvent::Page(p)) => if hash_found(p@) {
                    &&& r is ReadCookieJar
                    &&& final(self).phase_spec() == LoginPhase::CookieRequested
                    &&& profile_matches(p@, final(self).hash_spec(), final(self).info_spec())
                } else {
                    r == LoginAction::Fail(AuthError::HashNotFound)
                },
                (LoginPhase::CookieRequested, LoginEvent::Cookies(d)) => if exists|j: int|
                    0 <= j < d@.len() && is_portal_domain(#[trigger] d@[j].deep_view()) {
                    &&& final(self).phase_spec() == LoginPhase::Finished
                    &&& r matches LoginAction::Complete { cookie_index, hash, info }
                    &&& cookie_index < d@.len() && is_portal_domain(d@[cookie_index as int].deep_view())
                    &&& forall|j: int| 0 <= j < cookie_index ==> !is_portal_domain(#[trigger] d@[j].deep_view())
                    &&& hash@ == old(self).hash_spec()
                    &&& same_info(info, old(self).info_spec())
                } else {
                    r == LoginAction::Fail(AuthError::SessionCookieMissing)
                },
                _ => r == LoginAction::Fail(AuthError::UpstreamFormatError),
            },
    {
        match (self.phase, event) {
            (_, LoginEvent::Unreachable) => self.fail(AuthError::UpstreamUnreachable),
            (LoginPhase::LoginPageRequested, LoginEvent::Page(page)) => match xsrf_token(page.as_str()) {
                Ok(x) => {
                    self.phase = LoginPhase::CredentialsPosted;
                    LoginAction::PostCredentials(login_form(&self.login_data, x.as_str()))
                },
                Err(e) => self.fail(e),
            },
            (LoginPhase::CredentialsPosted, LoginEvent::Cookies(domains)) => match check_login_response(&domains) {
                Ok(()) => {
                    self.phase = LoginPhase::ProfileRequested;
                    LoginAction::FetchProfile
                },
                Err(e) => self.fail(e),
            },
            (LoginPhase::ProfileRequested, LoginEvent::Page(page)) => match parse_profile_page(page.as_str()) {
                Ok((hash, info)) => {
                    self.hash = hash;
                    self.info = info;
                    self.phase = LoginPhase::CookieRequested;
                    LoginAction::ReadCookieJar
                },
                Err(e) => self.fail(e),
            },
            (LoginPhase::CookieRequested, LoginEvent::Cookies(domains)) => match pick_session_cookie(&domains) {
                Ok(i) => {
                    self.phase = LoginPhase::Finished;
                    LoginAction::Complete {
                        cookie_index: i,
                        hash: self.hash.clone(),
                        info: copy_info(&self.info),
                    }
                },
                Err(e) => self.fail(e),
            },
            _ => self.fail(AuthError::UpstreamFormatError),
        }
    }
}

} // verus!
