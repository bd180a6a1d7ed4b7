use campus_api::auth::{bearer_token, ResponseError};
use campus_api::codec::TokenError;
use campus_api::login::{
    check_login_response, login_form, parse_profile_page, pick_session_cookie, xsrf_token,
    AuthError, LoginAction, LoginEvent, LoginFlow, LoginPhase,
};
use campus_api::markup::ExtractionError;
use campus_api::types::CampusLoginData;

#[test]
fn bearer_header_parsing() {
    assert_eq!(bearer_token(Some("Bearer abc.def.ghi")), Ok("abc.def.ghi".to_string()));
    assert_eq!(bearer_token(Some("  Bearer   tok  extra")), Ok("tok".to_string()));
    let missing = bearer_token(None).unwrap_err();
    assert_eq!(missing.status_code, 403);
    assert_eq!(missing.message, "JWT token is missing");
    let malformed = bearer_token(Some("Bearer")).unwrap_err();
    assert_eq!(malformed.status_code, 403);
    assert_eq!(malformed.message, "Malformed authorization header");
}

#[test]
fn error_statuses() {
    assert_eq!(ResponseError::from_auth(AuthError::InvalidCredentials).status_code, 401);
    for e in [
        AuthError::UpstreamUnreachable,
        AuthError::UpstreamFormatError,
        AuthError::HashNotFound,
        AuthError::SessionCookieMissing,
    ] {
        assert_eq!(ResponseError::from_auth(e).status_code, 500);
        assert_eq!(e.status_code(), 500);
    }
    assert_eq!(AuthError::InvalidCredentials.status_code(), 401);
    for e in [TokenError::Invalid, TokenError::Expired, TokenError::DecryptionFailed, TokenError::MalformedClaims] {
        let r = ResponseError::from_token(e);
        assert_eq!((r.status_code, r.message.as_str()), (401, "Invalid JWT"));
    }
    assert_eq!(ResponseError::from_token(TokenError::EncodingFailed).status_code, 500);
    assert_eq!(ResponseError::from_extraction(ExtractionError::TableMissing).status_code, 500);
    assert_eq!(ResponseError::rate_limited().status_code, 429);
}

const LOGIN_PAGE: &str = "<html><body><form><input type=\"hidden\" name=\"sap-login-XSRF\" value=\"tok123\"></form></body></html>";
const PROFILE_PAGE: &str = "<script>var hash=\"4f2a9c\";user=\"5001724\";</script><p><strong>Name: </strong>Musterperson, Max <strong> Seminargruppe: </strong>CS21-2 <br>  Studiengang Informatik  \n</p>";

#[test]
fn xsrf_token_from_login_page() {
    assert_eq!(xsrf_token(LOGIN_PAGE), Ok("tok123".to_string()));
    assert_eq!(xsrf_token("<html></html>"), Err(AuthError::UpstreamFormatError));
}

#[test]
fn form_fields() {
    let data = CampusLoginData { username: "5001724".to_string(), password: "pw".to_string() };
    let form = login_form(&data, "x");
    assert_eq!(
        form,
        vec![
            ("sap-user".to_string(), "5001724".to_string()),
            ("sap-password".to_string(), "pw".to_string()),
            ("sap-login-XSRF".to_string(), "x".to_string()),
        ]
    );
}

#[test]
fn session_cookie_checks() {
    let none: Vec<Option<String>> = vec![None, Some("example.org".to_string())];
    assert_eq!(check_login_response(&none), Err(AuthError::InvalidCredentials));
    assert_eq!(pick_session_cookie(&none), Err(AuthError::SessionCookieMissing));
    let some = vec![None, Some("erp.campus-dual.de".to_string()), Some("campus-dual.de".to_string())];
    assert_eq!(check_login_response(&some), Ok(()));
    assert_eq!(pick_session_cookie(&some), Ok(1));
}

#[test]
fn profile_page_fields() {
    let (hash, info) = parse_profile_page(PROFILE_PAGE).unwrap();
    assert_eq!(hash, "4f2a9c");
    assert_eq!(info.user, "5001724");
    assert_eq!(info.last_name, "Musterperson");
    assert_eq!(info.first_name, "Max");
    assert_eq!(info.seminar_group, "CS21-2");
    assert_eq!(info.seminar_name, "Studiengang Informatik");
    let (_, partial) = parse_profile_page("hash=\"ab\";user=\"1\";").unwrap();
    assert_eq!(partial.first_name, "");
    assert_eq!(partial.user, "1");
    assert_eq!(parse_profile_page("nothing here"), Err(AuthError::HashNotFound));
}

#[test]
fn handshake_in_order() {
    let data = CampusLoginData { username: "u".to_string(), password: "p".to_string() };
    let (mut flow, first) = LoginFlow::start(data);
    assert!(matches!(first, LoginAction::FetchLoginPage));
    match flow.step(LoginEvent::Page(LOGIN_PAGE.to_string())) {
        LoginAction::PostCredentials(form) => assert_eq!(form[2].1, "tok123"),
        _ => panic!("expected the credentials to be posted"),
    }
    assert_eq!(flow.phase(), LoginPhase::CredentialsPosted);
    assert!(matches!(
        flow.step(LoginEvent::Cookies(vec![Some("campus-dual.de".to_string())])),
        LoginAction::FetchProfile
    ));
    assert!(matches!(flow.step(LoginEvent::Page(PROFILE_PAGE.to_string())), LoginAction::ReadCookieJar));
    match flow.step(LoginEvent::Cookies(vec![None, Some("selfservice.campus-dual.de".to_string())])) {
        LoginAction::Complete { cookie_index, hash, info } => {
            assert_eq!(cookie_index, 1);
            assert_eq!(hash, "4f2a9c");
            assert_eq!(info.first_name, "Max");
        }
        _ => panic!("expected the sign-in to complete"),
    }
    assert_eq!(flow.phase(), LoginPhase::Finished);
}

#[test]
fn handshake_failures() {
    let data = CampusLoginData { username: "u".to_string(), password: "p".to_string() };
    let (mut flow, _) = LoginFlow::start(data.clone());
    flow.step(LoginEvent::Page(LOGIN_PAGE.to_string()));
    assert!(matches!(
        flow.step(LoginEvent::Cookies(vec![])),
        LoginAction::Fail(AuthError::InvalidCredentials)
    ));
    assert_eq!(flow.phase(), LoginPhase::Failed);
    let (mut flow, _) = LoginFlow::start(data);
    assert!(matches!(flow.step(LoginEvent::Unreachable), LoginAction::Fail(AuthError::UpstreamUnreachable)));
}

#[test]
fn each_failed_step_has_its_error() {
    let data = CampusLoginData { username: "u".to_string(), password: "p".to_string() };
    let (mut flow, _) = LoginFlow::start(data.clone());
    assert!(matches!(
        flow.step(LoginEvent::Page("<html></html>".to_string())),
        LoginAction::Fail(AuthError::UpstreamFormatError)
    ));
    let (mut flow, _) = LoginFlow::start(data.clone());
    flow.step(LoginEvent::Page(LOGIN_PAGE.to_string()));
    flow.step(LoginEvent::Cookies(vec![Some("campus-dual.de".to_string())]));
    assert!(matches!(
        flow.step(LoginEvent::Page("no hash".to_string())),
        LoginAction::Fail(AuthError::HashNotFound)
    ));
    let (mut flow, _) = LoginFlow::start(data);
    flow.step(LoginEvent::Page(LOGIN_PAGE.to_string()));
    flow.step(LoginEvent::Cookies(vec![Some("campus-dual.de".to_string())]));
    flow.step(LoginEvent::Page(PROFILE_PAGE.to_string()));
    assert!(matches!(
        flow.step(LoginEvent::Cookies(vec![Some("example.org".to_string())])),
        LoginAction::Fail(AuthError::SessionCookieMissing)
    ));
    assert_eq!(flow.phase(), LoginPhase::Failed);
}
