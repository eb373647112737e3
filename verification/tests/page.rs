use respon_cli::address::PageUrl;
use respon_cli::html::{HtmlControl, HtmlForm};
use respon_cli::json::{read_json_prefix, JsonValue};
use respon_cli::protocol::page::{
    card_id_in_text, extract_authenticity_token, extract_embedded_json, extract_forms,
    form_from_element, is_done, is_known_rejection, json_source, map_rejection, page_kind,
    page_kind_from_path, parse_control, CodeRejection, PageKind, ParsedForm,
};

fn page_with_json(json: &str) -> String {
    format!("<html><head><script>var other = 1;</script><script>\n  var json = {};\n</script></head><body></body></html>", json)
}

fn control(name: Option<&str>, ty: Option<&str>, checked: Option<&str>, value: Option<&str>) -> HtmlControl {
    HtmlControl {
        name: name.map(String::from),
        input_type: ty.map(String::from),
        checked: checked.map(String::from),
        value: value.map(String::from),
    }
}

#[test]
fn rejection_with_unknown_and_absent_codes() {
    let html = page_with_json(r#"{"errors": ["NoSuchAttendCord", 3, "SomethingNew"], "url": "/attend/tsukuba"}"#);
    let rejection = CodeRejection::from_page(&html);
    assert_eq!(rejection.code_exists(), Some(false));
    assert_eq!(rejection.status(), "not-found");
    assert!(!rejection.is_recognized());
    assert_eq!(rejection.reason(), "attendance code does not exist, SomethingNew");
}

#[test]
fn rejection_with_only_known_codes() {
    let html = page_with_json(r#"{"errors": ["AlreadyClosed", "NotYetAccepted"]}"#);
    let rejection = CodeRejection::from_page(&html);
    assert_eq!(rejection.code_exists(), Some(true));
    assert_eq!(rejection.status(), "closed");
    assert!(rejection.is_recognized());
    assert_eq!(
        rejection.reason(),
        "attendance acceptance is already closed, attendance acceptance has not started"
    );
}

#[test]
fn rejection_status_priorities() {
    let r = CodeRejection::from_page(&page_with_json(r#"{"errors": ["InvalidCallNumber"]}"#));
    assert_eq!(r.status(), "invalid");
    let r = CodeRejection::from_page(&page_with_json(r#"{"errors": ["InactiveCallNumber", "NotYetAccepted"]}"#));
    assert_eq!(r.status(), "inactive");
    assert_eq!(r.code_exists(), Some(true));
    let r = CodeRejection::from_page(&page_with_json(r#"{"errors": ["NotYetAccepted"]}"#));
    assert_eq!(r.status(), "not-yet-open");
    let r = CodeRejection::from_page(&page_with_json(r#"{"errors": ["BadUsername"]}"#));
    assert_eq!(r.status(), "unavailable");
}

#[test]
fn rejection_without_embedded_json() {
    let rejection = CodeRejection::from_page("<html><body>no script</body></html>");
    assert_eq!(rejection.code_exists(), None);
    assert_eq!(rejection.status(), "unavailable");
    assert!(!rejection.is_recognized());
    assert_eq!(rejection.reason(), "server returned the attendance-code page");
}

#[test]
fn rejection_with_errors_not_an_array() {
    let rejection = CodeRejection::from_page(&page_with_json(r#"{"errors": "NoSuchAttendCord"}"#));
    assert_eq!(rejection.code_exists(), None);
    assert_eq!(rejection.reason(), "server returned the attendance-code page");
}

#[test]
fn known_rejections_and_their_descriptions() {
    assert!(is_known_rejection("NotParticipant"));
    assert!(!is_known_rejection("notparticipant"));
    assert_eq!(map_rejection("BlankUsername"), "user ID is blank");
    assert_eq!(map_rejection("ProhibitedChatRoom"), "chat room submission is prohibited");
    assert_eq!(map_rejection("Whatever"), "Whatever");
    for code in [
        "AnonymousNotPermitted", "CannotDecodeCode", "NoSuchAttendCord", "InvalidCallNumber",
        "InactiveCallNumber", "AuthenticationFailed", "BlankUsername", "BadUsername",
        "NotParticipant", "AlreadyClosed", "Interrupted", "ProhibitedChatRoom", "NoSubmitRoles",
        "NotYetAccepted",
    ] {
        assert!(is_known_rejection(code));
        assert_ne!(map_rejection(code), code);
    }
}

#[test]
fn embedded_json_is_read_after_the_marker() {
    assert_eq!(json_source("x; var json =\t {\"a\": 1}").as_deref(), Some("{\"a\": 1}"));
    assert_eq!(json_source("var other = 2"), None);
    let json = extract_embedded_json(&page_with_json(r#"{"url": "/complete/tsukuba/1"} trailing text"#));
    let json = json.expect("embedded json");
    assert_eq!(json.get("url").and_then(|u| u.as_str()).map(String::as_str), Some("/complete/tsukuba/1"));
    assert!(extract_embedded_json("<script>var json = not json</script>").is_none());
}

#[test]
fn json_prefix_reading() {
    let v = read_json_prefix(" [1, \"a\", null, true] rest").expect("value");
    let items = v.as_array().expect("array");
    assert_eq!(items.len(), 4);
    assert!(matches!(&items[0], JsonValue::Number(n) if n == "1"));
    assert_eq!(items[1].as_str().map(String::as_str), Some("a"));
    assert!(matches!(items[2], JsonValue::Null));
    assert!(matches!(items[3], JsonValue::Bool(true)));
    assert!(read_json_prefix("}").is_none());
    let obj = read_json_prefix("{\"k\": {\"x\": 2}}").unwrap();
    assert!(obj.get("k").unwrap().get("x").is_some());
    assert!(obj.get("missing").is_none());
}

#[test]
fn parsed_form_contains_and_set() {
    let mut form = ParsedForm {
        method: "post".to_string(),
        action: "/a".to_string(),
        fields: vec![
            ("a".to_string(), "1".to_string()),
            ("b".to_string(), "2".to_string()),
            ("a".to_string(), "3".to_string()),
        ],
    };
    assert!(form.contains("a"));
    assert!(!form.contains("c"));
    form.set("a", "9".to_string());
    assert_eq!(form.fields, vec![("b".to_string(), "2".to_string()), ("a".to_string(), "9".to_string())]);
    form.set("c", "x".to_string());
    assert!(form.contains("c"));
    assert_eq!(form.fields.len(), 3);
    assert_eq!(form.method, "post");
    assert_eq!(form.action, "/a");
}

#[test]
fn controls_become_fields() {
    assert_eq!(parse_control(&control(Some("n"), None, None, Some("v"))), Some(("n".to_string(), "v".to_string())));
    assert_eq!(parse_control(&control(Some("n"), None, None, None)), Some(("n".to_string(), String::new())));
    assert_eq!(parse_control(&control(None, None, None, Some("v"))), None);
    assert_eq!(parse_control(&control(Some("c"), Some("checkbox"), None, Some("on"))), None);
    assert_eq!(parse_control(&control(Some("c"), Some("checkbox"), Some(""), Some("on"))), Some(("c".to_string(), "on".to_string())));
    assert_eq!(parse_control(&control(Some("r"), Some("radio"), None, Some("x"))), None);
    assert_eq!(parse_control(&control(Some("r"), Some("Radio"), None, Some("x"))), Some(("r".to_string(), "x".to_string())));
}

#[test]
fn form_elements_become_parsed_forms() {
    let element = HtmlForm {
        method: Some("POST".to_string()),
        action: None,
        controls: vec![control(Some("a"), Some("hidden"), None, Some("1")), control(Some("b"), Some("checkbox"), None, None)],
    };
    let form = form_from_element(&element);
    assert_eq!(form.method, "post");
    assert_eq!(form.action, "");
    assert_eq!(form.fields, vec![("a".to_string(), "1".to_string())]);
    let element = HtmlForm { method: None, action: Some("/x".to_string()), controls: vec![] };
    let form = form_from_element(&element);
    assert_eq!(form.method, "get");
    assert_eq!(form.action, "/x");
}

#[test]
fn forms_of_a_page() {
    let html = r#"<html><body>
        <form method="POST" action="/attend/tsukuba">
          <input type="hidden" name="authenticity_token" value="tok">
          <input type="checkbox" name="agree" value="yes">
          <input type="radio" name="pick" value="one" checked>
          <input type="text" value="nameless">
          <button name="go" value="GO">Go</button>
        </form>
        <form><input name="q"></form>
        </body></html>"#;
    let forms = extract_forms(html);
    assert_eq!(forms.len(), 2);
    assert_eq!(forms[0].method, "post");
    assert_eq!(forms[0].action, "/attend/tsukuba");
    assert_eq!(
        forms[0].fields,
        vec![
            ("authenticity_token".to_string(), "tok".to_string()),
            ("pick".to_string(), "one".to_string()),
            ("go".to_string(), "GO".to_string()),
        ]
    );
    assert_eq!(forms[1].method, "get");
    assert_eq!(forms[1].fields, vec![("q".to_string(), String::new())]);
}

#[test]
fn authenticity_token_sources() {
    let from_json = page_with_json(r#"{"authenticity_token": "from-json"}"#)
        + r#"<form><input name="authenticity_token" value="from-form"></form>"#;
    assert_eq!(extract_authenticity_token(&from_json).unwrap(), "from-json");
    let from_form = r#"<form><input name="x" value="1"></form><form><input name="authenticity_token" value="from-form"></form>"#;
    assert_eq!(extract_authenticity_token(from_form).unwrap(), "from-form");
    let json_not_string = page_with_json(r#"{"authenticity_token": 5}"#)
        + r#"<form><input name="authenticity_token" value="f"></form>"#;
    assert_eq!(extract_authenticity_token(&json_not_string).unwrap(), "f");
    match extract_authenticity_token("<html></html>") {
        Err(respon_cli::error::Error::Protocol(m)) => assert_eq!(m, "authenticity_token was not found"),
        other => panic!("unexpected {:?}", other),
    }
}

#[test]
fn card_ids() {
    assert_eq!(card_id_in_text("https://atmnb.tsukuba.ac.jp/attend-confirm/tsukuba/12345?x=1").as_deref(), Some("12345"));
    assert_eq!(card_id_in_text("/auth/tsukuba/abc then /result/tsukuba/77/").as_deref(), Some("77"));
    assert_eq!(card_id_in_text("/auth/tsukuba/9/attend-confirm/tsukuba/8").as_deref(), Some("9"));
    assert_eq!(card_id_in_text("/complete/tsukuba/"), None);
    assert_eq!(card_id_in_text("nothing here"), None);
    assert_eq!(card_id_in_text("/auth/tsukuba/x /auth/tsukuba/5"), None);
}

#[test]
fn kinds_of_pages() {
    assert_eq!(page_kind_from_path("/complete/tsukuba/1"), Some(PageKind::Done));
    assert_eq!(page_kind_from_path("/result/tsukuba/"), Some(PageKind::Done));
    assert_eq!(page_kind_from_path("/attend-confirm/tsukuba/3"), Some(PageKind::Confirm));
    assert_eq!(page_kind_from_path("/attend/tsukuba"), Some(PageKind::Attend));
    assert_eq!(page_kind_from_path("/attend/tsukuba/"), None);
    let url = PageUrl::parse("https://example.com/other").unwrap();
    let html = page_with_json(r#"{"url": "/attend-confirm/tsukuba/4"}"#);
    assert_eq!(page_kind(&html, &url), PageKind::Confirm);
    assert_eq!(page_kind("<html></html>", &url), PageKind::Unknown);
    let done_url = PageUrl::parse("https://example.com/complete/tsukuba/1").unwrap();
    assert_eq!(page_kind(&html, &done_url), PageKind::Done);
}

#[test]
fn completion_pages() {
    let url = PageUrl::parse("https://example.com/attend/tsukuba").unwrap();
    assert!(is_done("<p>\u{63d0}\u{51fa}\u{6e08}\u{307f}</p>", &url));
    assert!(is_done("<p>You have ALREADY Submitted</p>", &url));
    assert!(!is_done("<p>nothing yet</p>", &url));
    let done_url = PageUrl::parse("https://example.com/result/tsukuba/1").unwrap();
    assert!(is_done("", &done_url));
}

#[test]
fn known_codes_have_distinct_descriptions() {
    let codes = [
        "AnonymousNotPermitted", "CannotDecodeCode", "NoSuchAttendCord", "InvalidCallNumber",
        "InactiveCallNumber", "AuthenticationFailed", "BlankUsername", "BadUsername",
        "NotParticipant", "AlreadyClosed", "Interrupted", "ProhibitedChatRoom", "NoSubmitRoles",
        "NotYetAccepted",
    ];
    for (i, a) in codes.iter().enumerate() {
        for b in codes.iter().skip(i + 1) {
            assert_ne!(map_rejection(a), map_rejection(b), "{} {}", a, b);
        }
    }
}
