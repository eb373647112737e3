use respon_cli::address::PageUrl;
use respon_cli::error::Error;
use respon_cli::protocol::client::{
    classify_probe_redirect, probe_step, redirect_card_id, ProbeAction, ProbeEvent, ProbeRedirect,
    ATTEND_URL,
};
use respon_cli::protocol::status::{AttendanceAccess, ProbeStatus};

fn url(s: &str) -> PageUrl {
    PageUrl::parse(s).expect("valid url")
}

#[test]
fn urls_parse_and_join() {
    let u = url("https://atmnb.tsukuba.ac.jp/attend/tsukuba?x=1#f");
    assert_eq!(u.as_str(), "https://atmnb.tsukuba.ac.jp/attend/tsukuba?x=1#f");
    assert_eq!(u.path(), "/attend/tsukuba");
    let j = u.join("/ct/attend/pc?card=5").unwrap();
    assert_eq!(j.as_str(), "https://atmnb.tsukuba.ac.jp/ct/attend/pc?card=5");
    assert_eq!(j.path(), "/ct/attend/pc");
    let k = url("https://example.com/a/b").join("c").unwrap();
    assert_eq!(k.as_str(), "https://example.com/a/c");
    match PageUrl::parse("not a url") {
        Err(Error::Url(m)) => assert_eq!(m, "relative URL without a base"),
        other => panic!("unexpected {:?}", other),
    }
    assert!(matches!(url("https://example.com/").join("http://[::1"), Err(Error::Url(_))));
    match PageUrl::parse("http://example.com:99999/") {
        Err(Error::Url(m)) => assert_eq!(m, "invalid port number"),
        other => panic!("unexpected {:?}", other),
    }
    match url("https://example.com/").join("http://[:::1]/") {
        Err(Error::Url(m)) => assert_eq!(m, "invalid IPv6 address"),
        other => panic!("unexpected {:?}", other),
    }
}

#[test]
fn redirect_to_confirmation() {
    let loc = url("https://atmnb.tsukuba.ac.jp/attend-confirm/tsukuba/4242/x");
    match classify_probe_redirect(loc) {
        Ok(ProbeRedirect::Available(AttendanceAccess::ConfirmationAvailable { card_id, page_url })) => {
            assert_eq!(card_id, "4242");
            assert_eq!(page_url.path(), "/attend-confirm/tsukuba/4242/x");
        }
        other => panic!("unexpected {:?}", other),
    }
}

#[test]
fn redirect_to_login() {
    let loc = url("https://idp.example/ct/attend/pc?next=/auth/tsukuba/77");
    match classify_probe_redirect(loc) {
        Ok(ProbeRedirect::Available(access)) => {
            assert!(matches!(access, AttendanceAccess::AuthenticationRequired { .. }));
            assert_eq!(access.card_id(), "77");
        }
        other => panic!("unexpected {:?}", other),
    }
}

#[test]
fn redirect_without_card_id() {
    let loc = url("https://atmnb.tsukuba.ac.jp/ct/attend/pc");
    match classify_probe_redirect(loc) {
        Err(Error::Protocol(m)) => assert_eq!(
            m,
            "card ID was not found in attendance-code redirect: https://atmnb.tsukuba.ac.jp/ct/attend/pc"
        ),
        other => panic!("unexpected {:?}", other),
    }
    assert!(redirect_card_id(&url("https://a.example/auth/tsukuba/")).is_err());
    assert_eq!(redirect_card_id(&url("https://a.example/auth/tsukuba/31")).unwrap(), "31");
}

#[test]
fn redirect_back_to_attend_page() {
    let loc = url("https://atmnb.tsukuba.ac.jp/attend/tsukuba");
    match classify_probe_redirect(loc) {
        Ok(ProbeRedirect::Rejected(u)) => assert_eq!(u.as_str(), "https://atmnb.tsukuba.ac.jp/attend/tsukuba"),
        other => panic!("unexpected {:?}", other),
    }
}

#[test]
fn redirect_to_user_pages_and_elsewhere() {
    match classify_probe_redirect(url("https://atmnb.tsukuba.ac.jp/result/tsukuba/1")) {
        Err(Error::Protocol(m)) => assert_eq!(
            m,
            "attendance-code request reached a user-specific page before authentication: https://atmnb.tsukuba.ac.jp/result/tsukuba/1"
        ),
        other => panic!("unexpected {:?}", other),
    }
    match classify_probe_redirect(url("https://atmnb.tsukuba.ac.jp/elsewhere")) {
        Err(Error::Protocol(m)) => assert_eq!(m, "unexpected attendance-code redirect: https://atmnb.tsukuba.ac.jp/elsewhere"),
        other => panic!("unexpected {:?}", other),
    }
}

#[test]
fn probe_start_fetches_the_attend_page() {
    match probe_step("123456789", ProbeEvent::Start) {
        ProbeAction::FetchAttendPage { url } => assert_eq!(url.as_str(), ATTEND_URL),
        other => panic!("unexpected {:?}", other),
    }
}

#[test]
fn probe_submits_the_code_with_the_token() {
    let body = r#"<form><input type="hidden" name="authenticity_token" value="T0K"></form>"#.to_string();
    match probe_step("123456789", ProbeEvent::AttendPage { body }) {
        ProbeAction::SubmitCode { url, fields } => {
            assert_eq!(url.as_str(), ATTEND_URL);
            assert_eq!(
                fields,
                vec![
                    ("authenticity_token".to_string(), "T0K".to_string()),
                    ("code".to_string(), "123456789".to_string()),
                    ("insertdb".to_string(), "GO".to_string()),
                ]
            );
        }
        other => panic!("unexpected {:?}", other),
    }
    match probe_step("123456789", ProbeEvent::AttendPage { body: "<html></html>".to_string() }) {
        ProbeAction::Finished(Err(Error::Protocol(m))) => assert_eq!(m, "authenticity_token was not found"),
        other => panic!("unexpected {:?}", other),
    }
}

#[test]
fn probe_answers_without_redirect_fail() {
    let event = ProbeEvent::Redirect { status: "200 OK".to_string(), location: None };
    match probe_step("123456789", event) {
        ProbeAction::Finished(Err(Error::Protocol(m))) => {
            assert_eq!(m, "attendance-code request did not redirect: HTTP 200 OK")
        }
        other => panic!("unexpected {:?}", other),
    }
}

#[test]
fn probe_redirects_resolve_against_the_attend_page() {
    let event = ProbeEvent::Redirect {
        status: "302 Found".to_string(),
        location: Some("/attend-confirm/tsukuba/555".to_string()),
    };
    match probe_step("123456789", event) {
        ProbeAction::Finished(Ok(ProbeStatus::Available(access))) => {
            assert_eq!(access.card_id(), "555");
            match access {
                AttendanceAccess::ConfirmationAvailable { page_url, .. } => assert_eq!(
                    page_url.as_str(),
                    "https://atmnb.tsukuba.ac.jp/attend-confirm/tsukuba/555"
                ),
                other => panic!("unexpected {:?}", other),
            }
        }
        other => panic!("unexpected {:?}", other),
    }
    let event = ProbeEvent::Redirect { status: "302 Found".to_string(), location: Some("tsukuba".to_string()) };
    match probe_step("123456789", event) {
        ProbeAction::FetchRejectionPage { url } => assert_eq!(url.as_str(), ATTEND_URL),
        other => panic!("unexpected {:?}", other),
    }
    let event = ProbeEvent::Redirect { status: "302 Found".to_string(), location: Some("http://[bad".to_string()) };
    assert!(matches!(probe_step("123456789", event), ProbeAction::Finished(Err(Error::Url(_)))));
}

#[test]
fn probe_reads_the_rejection_page() {
    let body = r#"<script>var json = {"errors": ["InvalidCallNumber"]};</script>"#.to_string();
    let event = ProbeEvent::RejectionPage { url: url(ATTEND_URL), body };
    match probe_step("123456789", event) {
        ProbeAction::Finished(Ok(ProbeStatus::Unavailable(rejection))) => {
            assert_eq!(rejection.status(), "invalid");
            assert_eq!(rejection.code_exists(), Some(false));
        }
        other => panic!("unexpected {:?}", other),
    }
    let event = ProbeEvent::RejectionPage { url: url(ATTEND_URL), body: "<p>already submitted</p>".to_string() };
    match probe_step("123456789", event) {
        ProbeAction::Finished(Err(Error::Protocol(m))) => assert_eq!(
            m,
            "attendance-code rejection unexpectedly returned a completion page: https://atmnb.tsukuba.ac.jp/attend/tsukuba"
        ),
        other => panic!("unexpected {:?}", other),
    }
}
