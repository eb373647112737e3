use respon_cli::address::PageUrl;
use respon_cli::cli::validate_code;
use respon_cli::commands::{answer_exit_code, available_answer, exists_answer, status_report};
use respon_cli::diagnostics::Diagnostics;
use respon_cli::error::Error;
use respon_cli::protocol::page::CodeRejection;
use respon_cli::protocol::status::{AttendanceAccess, ProbeStatus};

fn refused(errors: &str) -> ProbeStatus {
    let html = format!("<script>var json = {{\"errors\": {}}};</script>", errors);
    ProbeStatus::Unavailable(CodeRejection::from_page(&html))
}

fn available() -> ProbeStatus {
    ProbeStatus::Available(AttendanceAccess::ConfirmationAvailable {
        card_id: "123".to_string(),
        page_url: PageUrl::parse("https://atmnb.tsukuba.ac.jp/attend-confirm/tsukuba/123").unwrap(),
    })
}

#[test]
fn codes_are_nine_ascii_digits() {
    assert_eq!(validate_code("012345678"), Ok("012345678".to_string()));
    let message = Err("code must be exactly 9 ASCII digits".to_string());
    assert_eq!(validate_code("01234567"), message);
    assert_eq!(validate_code("0123456789"), message);
    assert_eq!(validate_code("01234567a"), message);
    assert_eq!(validate_code("０１２３４５６７８"), message);
    assert_eq!(validate_code(""), message);
}

#[test]
fn exists_answers() {
    assert!(matches!(exists_answer(&available()), Ok(true)));
    assert!(matches!(exists_answer(&refused(r#"["NoSuchAttendCord"]"#)), Ok(false)));
    assert!(matches!(exists_answer(&refused(r#"["AlreadyClosed"]"#)), Ok(true)));
    match exists_answer(&refused(r#"["Odd"]"#)) {
        Err(Error::Rejected(m)) => assert_eq!(m, "Odd"),
        other => panic!("unexpected {:?}", other),
    }
}

#[test]
fn available_answers() {
    assert!(matches!(available_answer(&available()), Ok(true)));
    assert!(matches!(available_answer(&refused(r#"["AlreadyClosed", "NoSuchAttendCord"]"#)), Ok(false)));
    match available_answer(&refused(r#"[]"#)) {
        Err(Error::Rejected(m)) => assert_eq!(m, "server returned the attendance-code page"),
        other => panic!("unexpected {:?}", other),
    }
}

#[test]
fn available_implies_exists_on_examples() {
    for status in [available(), refused(r#"["NoSuchAttendCord"]"#), refused(r#"["Odd"]"#), refused(r#"["AlreadyClosed"]"#)] {
        if matches!(available_answer(&status), Ok(true)) {
            assert!(matches!(exists_answer(&status), Ok(true)));
        }
    }
    let recognized = refused(r#"["NotYetAccepted", "InvalidCallNumber"]"#);
    assert!(matches!(available_answer(&recognized), Ok(false)));
    assert!(exists_answer(&recognized).is_ok());
}

#[test]
fn status_lines() {
    assert_eq!(status_report(&available()), "available; card=123");
    assert_eq!(
        status_report(&refused(r#"["InactiveCallNumber", "Odd"]"#)),
        "inactive: attendance code is inactive, Odd"
    );
}

#[test]
fn answer_exit_codes() {
    assert_eq!(answer_exit_code(true), 0);
    assert_eq!(answer_exit_code(false), 1);
}

#[test]
fn error_exit_codes_and_messages() {
    let cases = [
        (Error::Authentication("a".to_string()), 2, "authentication failed: a"),
        (Error::Rejected("b".to_string()), 3, "attendance code was rejected: b"),
        (Error::Protocol("c".to_string()), 4, "respon protocol changed or returned an unsupported page: c"),
        (Error::Network("d".to_string()), 5, "network request failed: d"),
        (Error::Url("e".to_string()), 5, "invalid URL: e"),
        (Error::Input("f".to_string()), 1, "could not read input: f"),
        (Error::Prompt("g".to_string()), 1, "interactive prompt failed: g"),
    ];
    for (error, code, message) in cases {
        assert_eq!(error.exit_code(), code);
        assert_ne!(error.exit_code(), 0);
        assert_eq!(error.message(), message);
    }
}

#[test]
fn verbose_diagnostics() {
    let on = Diagnostics::new(true);
    assert!(on.verbose());
    assert_eq!(on.log_line("GET x").as_deref(), Some("[verbose] GET x"));
    let off = Diagnostics::new(false);
    assert!(!off.verbose());
    assert_eq!(off.log_line("GET x"), None);
}

#[test]
fn absence_matches_status_labels() {
    for errors in [
        r#"["NoSuchAttendCord"]"#,
        r#"["CannotDecodeCode", "AlreadyClosed"]"#,
        r#"["Odd", "InvalidCallNumber"]"#,
        r#"["AlreadyClosed"]"#,
        r#"["Odd"]"#,
        r#"[]"#,
    ] {
        let html = format!("<script>var json = {{\"errors\": {}}};</script>", errors);
        let rejection = CodeRejection::from_page(&html);
        let absent = rejection.code_exists() == Some(false);
        let label = rejection.status();
        assert_eq!(absent, label == "not-found" || label == "invalid", "{}", errors);
    }
}
