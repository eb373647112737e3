//! The client's decisions while probing an attendance code: where to go next
//! and what the service's answers mean.
use vstd::prelude::*;

use crate::address::{is_url_error_text, joined_url, parsed_url, PageUrl};
use crate::error::{concat, Error};
use crate::html::html_script_texts;
use crate::protocol::page::{
    authenticity_token_of, card_id_in_text, card_id_of, embedded_json_in, extract_authenticity_token,
    is_done, lemma_card_id_is_digits, listed_errors, missing_token_error, page_forms, pairs_of, shows_done, CodeRejection,
};
use crate::protocol::status::{access_parts, AttendanceAccess, ProbeStatus};
use crate::text::{chars_of, starts_with, starts_with_seq};

verus! {

/// The service's origin, sent as `Origin` with form submissions.
pub const ATMNB_URL: &'static str = "https://atmnb.tsukuba.ac.jp";

/// The page where attendance codes are entered.
pub const ATTEND_URL: &'static str = "https://atmnb.tsukuba.ac.jp/attend/tsukuba";

/// Where the redirect after submitting a code leads.
#[derive(Debug)]
pub enum ProbeRedirect {
    Available(AttendanceAccess),
    Rejected(PageUrl),
}

/// What a redirect after submitting a code means: a confirmation page or a
/// login page for the card with the given ID, the page that lists the
/// rejection, or a failure with the given description.
pub enum RedirectVerdict {
    Confirmation(Seq<char>),
    Login(Seq<char>),
    Rejection,
    Failure(Seq<char>),
}

/// What a redirect to the URL with serialization `href` and path `path` means.
pub open spec fn redirect_verdict(href: Seq<char>, path: Seq<char>) -> RedirectVerdict {
    if starts_with_seq(path, "/attend-confirm/tsukuba/"@) {
        match card_id_of(href) {
            Some(id) => RedirectVerdict::Confirmation(id),
            None => RedirectVerdict::Failure(
                "card ID was not found in attendance-code redirect: "@ + href,
            ),
        }
    } else if path == "/ct/attend/pc"@ {
        match card_id_of(href) {
            Some(id) => RedirectVerdict::Login(id),
            None => RedirectVerdict::Failure(
                "card ID was not found in attendance-code redirect: "@ + href,
            ),
        }
    } else if path == "/attend/tsukuba"@ {
        RedirectVerdict::Rejection
    } else if starts_with_seq(path, "/complete/tsukuba/"@) || starts_with_seq(
        path,
        "/result/tsukuba/"@,
    ) {
        RedirectVerdict::Failure(
            "attendance-code request reached a user-specific page before authentication: "@
                + href,
        )
    } else {
        RedirectVerdict::Failure("unexpected attendance-code redirect: "@ + href)
    }
}

/// `r` is the outcome that `redirect_verdict` gives for `location`.
pub open spec fn redirect_outcome(location: (Seq<char>, Seq<char>), r: Result<ProbeRedirect, Error>) -> bool {
    match redirect_verdict(location.0, location.1) {
        RedirectVerdict::Confirmation(id) => (r matches Ok(
            ProbeRedirect::Available(AttendanceAccess::ConfirmationAvailable { card_id, page_url }),
        ) && card_id@ == id && page_url@ == location),
        RedirectVerdict::Login(id) => (r matches Ok(
            ProbeRedirect::Available(AttendanceAccess::AuthenticationRequired { card_id, login_url }),
        ) && card_id@ == id && login_url@ == location),
        RedirectVerdict::Rejection => (r matches Ok(ProbeRedirect::Rejected(u)) && u@ == location),
        RedirectVerdict::Failure(m) => (r matches Err(Error::Protocol(e)) && e@ == m),
    }
}

/// The card ID in a redirect's URL; an error naming the URL when it has none.
pub fn redirect_card_id(location: &PageUrl) -> (r: Result<String, Error>)
    ensures
        match r {
            Ok(id) => card_id_of(location@.0) == Some(id@),
            Err(e) => card_id_of(location@.0) is None && (e matches Error::Protocol(m) && m@
                == "card ID was not found in attendance-code redirect: "@ + location@.0),
        },
{
    match card_id_in_text(location.as_str()) {
        Some(id) => Ok(id),
        None => Err(
            Error::Protocol(
                concat("card ID was not found in attendance-code redirect: ", location.as_str()),
            ),
        ),
    }
}

/// What the redirect after submitting a code to `location` means (see `redirect_verdict`).
pub fn classify_probe_redirect(location: PageUrl) -> (r: Result<ProbeRedirect, Error>)
    ensures
        redirect_outcome(location@, r),
{
    let path = chars_of(location.path());
    let path = path.as_slice();
    if starts_with(path, chars_of("/attend-confirm/tsukuba/").as_slice()) {
        let card_id = match redirect_card_id(&location) {
            Ok(id) => id,
            Err(e) => return Err(e),
        };
        return Ok(
            ProbeRedirect::Available(
                AttendanceAccess::ConfirmationAvailable { card_id, page_url: location },
            ),
        );
    }
    if crate::protocol::page::text_is(path, "/ct/attend/pc") {
        let card_id = match redirect_card_id(&location) {
            Ok(id) => id,
            Err(e) => return Err(e),
        };
        return Ok(
            ProbeRedirect::Available(
                AttendanceAccess::AuthenticationRequired { card_id, login_url: location },
            ),
        );
    }
    if crate::protocol::page::text_is(path, "/attend/tsukuba") {
        return Ok(ProbeRedirect::Rejected(location));
    }
    if starts_with(path, chars_of("/complete/tsukuba/").as_slice()) || starts_with(
        path,
        chars_of("/result/tsukuba/").as_slice(),
    ) {
        return Err(
            Error::Protocol(
                concat(
                    "attendance-code request reached a user-specific page before authentication: ",
                    location.as_str(),
                ),
            ),
        );
    }
    Err(Error::Protocol(concat("unexpected attendance-code redirect: ", location.as_str())))
}

/// What the client learned from its last request while probing a code.
#[derive(Debug)]
pub enum ProbeEvent {
    /// The probe begins.
    Start,
    /// The page where codes are entered was fetched; `body` is its HTML.
    AttendPage { body: String },
    /// The code was submitted; the answer had status `status` (as its text)
    /// and, when it redirects, the `Location` header `location`.
    Redirect { status: String, location: Option<String> },
    /// The page that lists why the code was refused was fetched from `url`.
    RejectionPage { url: PageUrl, body: String },
}

/// What the client does next while probing a code.
#[derive(Debug)]
pub enum ProbeAction {
    /// Fetch the page where codes are entered.
    FetchAttendPage { url: PageUrl },
    /// Post `fields` as a form to `url`, without following redirects.
    SubmitCode { url: PageUrl, fields: Vec<(String, String)> },
    /// Fetch the page that lists why the code was refused.
    FetchRejectionPage { url: PageUrl },
    /// The probe is over.
    Finished(Result<ProbeStatus, Error>),
}

/// The form fields that submit `code` with the authenticity token `token`.
pub open spec fn code_form(token: Seq<char>, code: Seq<char>) -> Seq<(Seq<char>, Seq<char>)> {
    seq![("authenticity_token"@, token), ("code"@, code), ("insertdb"@, "GO"@)]
}

/// `a` is the action that follows the event `Start`: fetching the page where
/// codes are entered, or failing with the URL error's description when its
/// address does not parse.
pub open spec fn after_start(a: ProbeAction) -> bool {
    match parsed_url(ATTEND_URL@) {
        Some(u) => a matches ProbeAction::FetchAttendPage { url } && url@ == u,
        None => (a matches ProbeAction::Finished(Err(Error::Url(m))) && is_url_error_text(m@)),
    }
}

/// `a` is the action that follows fetching the page `body` where codes are
/// entered: submitting `code` with the page's authenticity token, or failing
/// when the page has none.
pub open spec fn after_attend_page(code: Seq<char>, body: Seq<char>, a: ProbeAction) -> bool {
    match authenticity_token_of(embedded_json_in(html_script_texts(body)), page_forms(body)) {
        None => a matches ProbeAction::Finished(Err(e)) && missing_token_error(e),
        Some(token) => match parsed_url(ATTEND_URL@) {
            Some(u) => (a matches ProbeAction::SubmitCode { url, fields } && url@ == u && pairs_of(
                fields@,
            ) == code_form(token, code)),
            None => (a matches ProbeAction::Finished(Err(Error::Url(m))) && is_url_error_text(m@)),
        },
    }
}

/// `a` is the action that follows the answer to a submitted code: failing when
/// it does not redirect or its target does not resolve against the page where
/// codes are entered, else what `redirect_verdict` makes of the target:
/// finishing with the code available, fetching the rejection page, or failing.
pub open spec fn after_redirect(status: Seq<char>, location: Option<Seq<char>>, a: ProbeAction) -> bool {
    match location {
        None => (a matches ProbeAction::Finished(Err(Error::Protocol(m))) && m@
            == "attendance-code request did not redirect: HTTP "@ + status),
        Some(l) => match parsed_url(ATTEND_URL@) {
            None => (a matches ProbeAction::Finished(Err(Error::Url(m))) && is_url_error_text(m@)),
            Some(base) => match joined_url(base.0, l) {
                None => (a matches ProbeAction::Finished(Err(Error::Url(m))) && is_url_error_text(m@)),
                Some(target) => match redirect_verdict(target.0, target.1) {
                    RedirectVerdict::Confirmation(id) => (a matches ProbeAction::Finished(
                        Ok(
                            ProbeStatus::Available(
                                AttendanceAccess::ConfirmationAvailable { card_id, page_url },
                            ),
                        ),
                    ) && card_id@ == id && page_url@ == target),
                    RedirectVerdict::Login(id) => (a matches ProbeAction::Finished(
                        Ok(
                            ProbeStatus::Available(
                                AttendanceAccess::AuthenticationRequired { card_id, login_url },
                            ),
                        ),
                    ) && card_id@ == id && login_url@ == target),
                    RedirectVerdict::Rejection => (a matches ProbeAction::FetchRejectionPage { url }
                        && url@ == target),
                    RedirectVerdict::Failure(m) => (a matches ProbeAction::Finished(
                        Err(Error::Protocol(e)),
                    ) && e@ == m),
                },
            },
        },
    }
}

/// `a` is the action that follows fetching the rejection page `body` from
/// `url`: failing when it is a completion page, else finishing with the code
/// unavailable for the reasons the page lists.
pub open spec fn after_rejection_page(url: (Seq<char>, Seq<char>), body: Seq<char>, a: ProbeAction) -> bool {
    if shows_done(embedded_json_in(html_script_texts(body)), url.1, body) {
        a matches ProbeAction::Finished(Err(Error::Protocol(m))) && m@
            == "attendance-code rejection unexpectedly returned a completion page: "@ + url.0
    } else {
        a matches ProbeAction::Finished(Ok(ProbeStatus::Unavailable(rejection))) && rejection@
            == listed_errors(embedded_json_in(html_script_texts(body)))
    }
}

/// The form that submits `code` with `token`.
fn code_form_fields(token: String, code: &str) -> (r: Vec<(String, String)>)
    ensures
        pairs_of(r@) == code_form(token@, code@),
{
    let mut fields: Vec<(String, String)> = Vec::new();
    fields.push((String::from_str("authenticity_token"), token));
    fields.push((String::from_str("code"), String::from_str(code)));
    fields.push((String::from_str("insertdb"), String::from_str("GO")));
    assert(pairs_of(fields@) =~= code_form(token@, code@));
    fields
}

/// The next step of probing `code`, given what the last request brought.
pub fn probe_step(code: &str, event: ProbeEvent) -> (a: ProbeAction)
    ensures
        match event {
            ProbeEvent::Start => after_start(a),
            ProbeEvent::AttendPage { body } => after_attend_page(code@, body@, a),
            ProbeEvent::Redirect { status, location } => after_redirect(
                status@,
                match location {
                    Some(l) => Some(l@),
                    None => None,
                },
                a,
            ),
            ProbeEvent::RejectionPage { url, body } => after_rejection_page(url@, body@, a),
        },
{
    match event {
        ProbeEvent::Start => match PageUrl::parse(ATTEND_URL) {
            Ok(url) => ProbeAction::FetchAttendPage { url },
            Err(e) => ProbeAction::Finished(Err(e)),
        },
        ProbeEvent::AttendPage { body } => {
            let token = match extract_authenticity_token(body.as_str()) {
                Ok(t) => t,
                Err(e) => return ProbeAction::Finished(Err(e)),
            };
            match PageUrl::parse(ATTEND_URL) {
                Ok(url) => ProbeAction::SubmitCode { url, fields: code_form_fields(token, code) },
                Err(e) => ProbeAction::Finished(Err(e)),
            }
        },
        ProbeEvent::Redirect { status, location } => {
            let location = match location {
                Some(l) => l,
                None => {
                    return ProbeAction::Finished(
                        Err(
                            Error::Protocol(
                                concat(
                                    "attendance-code request did not redirect: HTTP ",
                                    status.as_str(),
                                ),
                            ),
                        ),
                    );
                },
            };
            let base = match PageUrl::parse(ATTEND_URL) {
                Ok(u) => u,
                Err(e) => return ProbeAction::Finished(Err(e)),
            };
            let target = match base.join(location.as_str()) {
                Ok(u) => u,
                Err(e) => return ProbeAction::Finished(Err(e)),
            };
            match classify_probe_redirect(target) {
                Ok(ProbeRedirect::Available(access)) => ProbeAction::Finished(
                    Ok(ProbeStatus::Available(access)),
                ),
                Ok(ProbeRedirect::Rejected(url)) => ProbeAction::FetchRejectionPage { url },
                Err(e) => ProbeAction::Finished(Err(e)),
            }
        },
        ProbeEvent::RejectionPage { url, body } => {
            if is_done(body.as_str(), &url) {
                ProbeAction::Finished(
                    Err(
                        Error::Protocol(
                            concat(
                                "attendance-code rejection unexpectedly returned a completion page: ",
                                url.as_str(),
                            ),
                        ),
                    ),
                )
            } else {
                ProbeAction::Finished(
                    Ok(ProbeStatus::Unavailable(CodeRejection::from_page(body.as_str()))),
                )
            }
        },
    }
}

/// A redirect that makes a code available names a card ID: a non-empty run of
/// ASCII digits that appears in the redirect's URL.
pub proof fn lemma_available_redirect_card_id(href: Seq<char>, path: Seq<char>)
    ensures
        match redirect_verdict(href, path) {
            RedirectVerdict::Confirmation(id) | RedirectVerdict::Login(id) => id.len() > 0 && (forall|i: int|
                0 <= i < id.len() ==> crate::text::is_digit(#[trigger] id[i])) && crate::text::contains_seq(href, id),
            _ => true,
        },
{
    lemma_card_id_is_digits(href);
}

/// A redirect to the login page `/ct/attend/pc` whose URL names a card ends
/// the probe with the code available: the access asks the user to log in, and
/// carries that card ID and the redirect's URL.
pub proof fn lemma_login_redirect_is_available(
    status: Seq<char>,
    location: Seq<char>,
    base: (Seq<char>, Seq<char>),
    target: (Seq<char>, Seq<char>),
    id: Seq<char>,
    a: ProbeAction,
)
    requires
        parsed_url(ATTEND_URL@) == Some(base),
        joined_url(base.0, location) == Some(target),
        target.1 == "/ct/attend/pc"@,
        card_id_of(target.0) == Some(id),
        after_redirect(status, Some(location), a),
    ensures
        a matches ProbeAction::Finished(Ok(ProbeStatus::Available(access))) && access_parts(access)
            == (true, id, target),
{
    reveal_strlit("/ct/attend/pc");
    reveal_strlit("/attend-confirm/tsukuba/");
    assert(!starts_with_seq(target.1, "/attend-confirm/tsukuba/"@)) by {
        assert(target.1.len() < "/attend-confirm/tsukuba/"@.len());
    }
}

/// A redirect to a confirmation page (a path under `/attend-confirm/tsukuba/`)
/// whose URL names a card ends the probe with the code available: the access
/// needs no login, and carries that card ID and the redirect's URL.
pub proof fn lemma_confirmation_redirect_is_available(
    status: Seq<char>,
    location: Seq<char>,
    base: (Seq<char>, Seq<char>),
    target: (Seq<char>, Seq<char>),
    id: Seq<char>,
    a: ProbeAction,
)
    requires
        parsed_url(ATTEND_URL@) == Some(base),
        joined_url(base.0, location) == Some(target),
        starts_with_seq(target.1, "/attend-confirm/tsukuba/"@),
        card_id_of(target.0) == Some(id),
        after_redirect(status, Some(location), a),
    ensures
        a matches ProbeAction::Finished(Ok(ProbeStatus::Available(access))) && access_parts(access)
            == (false, id, target),
{
}

/// Whenever the redirect's target makes the code available, the probe ends
/// with exactly that access: the step that follows the redirect agrees with
/// `classify_probe_redirect` on the target.
pub proof fn lemma_probe_follows_classification(
    status: Seq<char>,
    location: Seq<char>,
    base: (Seq<char>, Seq<char>),
    target: (Seq<char>, Seq<char>),
    r: Result<ProbeRedirect, Error>,
    a: ProbeAction,
)
    requires
        parsed_url(ATTEND_URL@) == Some(base),
        joined_url(base.0, location) == Some(target),
        redirect_outcome(target, r),
        after_redirect(status, Some(location), a),
    ensures
        r matches Ok(ProbeRedirect::Available(access)) ==> (a matches ProbeAction::Finished(
            Ok(ProbeStatus::Available(found)),
        ) && access_parts(found) == access_parts(access)),
        r matches Ok(ProbeRedirect::Rejected(u)) ==> (a matches ProbeAction::FetchRejectionPage { url }
            && url@ == u@),
        r matches Err(Error::Protocol(m)) ==> (a matches ProbeAction::Finished(Err(Error::Protocol(e)))
            && e@ == m@),
{
}

/// How `classify_probe_redirect` treats each kind of target, by its path:
/// the code-entry page means a rejection, a confirmation or login page that
/// names a card makes the code available with that card and URL, one that
/// names none fails, and a completion page or any other page fails.
pub proof fn lemma_redirect_classes(location: (Seq<char>, Seq<char>), r: Result<ProbeRedirect, Error>)
    requires
        redirect_outcome(location, r),
    ensures
        location.1 == "/attend/tsukuba"@ ==> (r matches Ok(ProbeRedirect::Rejected(u)) && u@ == location),
        starts_with_seq(location.1, "/attend-confirm/tsukuba/"@) ==> match card_id_of(location.0) {
            Some(id) => (r matches Ok(ProbeRedirect::Available(access)) && access_parts(access) == (
            false,
            id,
            location,
            )),
            None => r matches Err(Error::Protocol(_)),
        },
        location.1 == "/ct/attend/pc"@ ==> match card_id_of(location.0) {
            Some(id) => (r matches Ok(ProbeRedirect::Available(access)) && access_parts(access) == (
            true,
            id,
            location,
            )),
            None => r matches Err(Error::Protocol(_)),
        },
        (starts_with_seq(location.1, "/complete/tsukuba/"@) || starts_with_seq(
            location.1,
            "/result/tsukuba/"@,
        )) ==> r matches Err(Error::Protocol(_)),
        r matches Ok(ProbeRedirect::Rejected(_)) ==> location.1 == "/attend/tsukuba"@,
        r matches Ok(ProbeRedirect::Available(access)) ==> access_parts(access).2 == location && Some(
            access_parts(access).1,
        ) == card_id_of(location.0),
{
    reveal_strlit("/attend/tsukuba");
    reveal_strlit("/ct/attend/pc");
    reveal_strlit("/attend-confirm/tsukuba/");
    reveal_strlit("/complete/tsukuba/");
    reveal_strlit("/result/tsukuba/");
    assert("/attend/tsukuba"@.len() == 15);
    assert("/ct/attend/pc"@.len() == 13);
    assert("/attend-confirm/tsukuba/"@.len() == 24);
    assert("/complete/tsukuba/"@.len() == 18);
    assert("/result/tsukuba/"@.len() == 16);
    if location.1 == "/attend/tsukuba"@ {
        assert(!starts_with_seq(location.1, "/attend-confirm/tsukuba/"@));
    }
    if location.1 == "/ct/attend/pc"@ {
        assert(!starts_with_seq(location.1, "/attend-confirm/tsukuba/"@));
    }
    if starts_with_seq(location.1, "/complete/tsukuba/"@) || starts_with_seq(location.1, "/result/tsukuba/"@) {
        if starts_with_seq(location.1, "/complete/tsukuba/"@) {
            assert(location.1.subrange(0, 18)[1] == location.1[1]);
        } else {
            assert(location.1.subrange(0, 16)[1] == location.1[1]);
        }
        assert(location.1[1] == 'c' || location.1[1] == 'r');
        if starts_with_seq(location.1, "/attend-confirm/tsukuba/"@) {
            assert(location.1.subrange(0, 24)[1] == location.1[1]);
        }
        assert(location.1 != "/ct/attend/pc"@) by {
            if location.1 == "/ct/attend/pc"@ {
                assert(location.1[1] == 'c');
                assert(location.1.len() == 13);
            }
        }
        assert(location.1 != "/attend/tsukuba"@);
    }
}

/// The probe's other steps: without a redirect it fails; a redirect to the
/// code-entry page fetches that page; from the code-entry page it submits
/// exactly the code with the page's token; and the rejection page ends the
/// probe with the code unavailable for the listed reasons, unless the page
/// shows a completed submission, which is an error.
pub proof fn lemma_probe_steps(
    code: Seq<char>,
    status: Seq<char>,
    location: Seq<char>,
    base: (Seq<char>, Seq<char>),
    target: (Seq<char>, Seq<char>),
    body: Seq<char>,
    url: (Seq<char>, Seq<char>),
    a1: ProbeAction,
    a2: ProbeAction,
    a3: ProbeAction,
    a4: ProbeAction,
)
    requires
        parsed_url(ATTEND_URL@) == Some(base),
        joined_url(base.0, location) == Some(target),
        after_redirect(status, None, a1),
        after_redirect(status, Some(location), a2),
        after_attend_page(code, body, a3),
        after_rejection_page(url, body, a4),
    ensures
        a1 matches ProbeAction::Finished(Err(Error::Protocol(_))),
        target.1 == "/attend/tsukuba"@ ==> (a2 matches ProbeAction::FetchRejectionPage { url: u }
            && u@ == target),
        a3 matches ProbeAction::SubmitCode { url: u, fields } ==> u@ == base && pairs_of(fields@).len()
            == 3 && pairs_of(fields@)[1] == ("code"@, code) && Some(pairs_of(fields@)[0].1)
            == authenticity_token_of(embedded_json_in(html_script_texts(body)), page_forms(body))
            && pairs_of(fields@)[0].0 == "authenticity_token"@,
        authenticity_token_of(embedded_json_in(html_script_texts(body)), page_forms(body)) is Some
            ==> a3 is SubmitCode,
        a4 matches ProbeAction::Finished(Ok(st)) ==> (st matches ProbeStatus::Unavailable(rej) && rej@
            == listed_errors(embedded_json_in(html_script_texts(body)))),
        shows_done(embedded_json_in(html_script_texts(body)), url.1, body) <==> a4 matches ProbeAction::Finished(Err(_)),
{
    reveal_strlit("/attend/tsukuba");
    reveal_strlit("/attend-confirm/tsukuba/");
    reveal_strlit("/ct/attend/pc");
    assert("/attend/tsukuba"@.len() == 15);
    assert("/ct/attend/pc"@.len() == 13);
    if target.1 == "/attend/tsukuba"@ {
        assert(!starts_with_seq(target.1, "/attend-confirm/tsukuba/"@));
    }
}

} // verus!
