//! What the query commands answer for the outcome of a probe, and the exit
//! status of an answer.
use vstd::prelude::*;

use crate::error::{concat, Error};
use crate::protocol::page::{
    all_known, existence_of, is_absence_code, is_known_rejection_code,
    lemma_recognized_rejection_decides, reason_text, status_label,
    CodeRejection,
};
use crate::protocol::status::{access_card_id, access_parts, AttendanceAccess, ProbeStatus};

verus! {

/// The answer of `exists`: yes for an available code; for a refused one, what
/// its rejection says about existence, or an error with the reason when it
/// says nothing.
pub open spec fn exists_outcome(status: ProbeStatus, r: Result<bool, Error>) -> bool {
    match status {
        ProbeStatus::Available(_) => r == Ok::<bool, Error>(true),
        ProbeStatus::Unavailable(rej) => match existence_of(rej@) {
            Some(b) => r == Ok::<bool, Error>(b),
            None => r matches Err(Error::Rejected(m)) && m@ == reason_text(rej@),
        },
    }
}

/// The answer of `available`: yes for an available code, no for a refusal
/// made only of known rejection codes, an error with the reason otherwise.
pub open spec fn available_outcome(status: ProbeStatus, r: Result<bool, Error>) -> bool {
    match status {
        ProbeStatus::Available(_) => r == Ok::<bool, Error>(true),
        ProbeStatus::Unavailable(rej) => if all_known(rej@) {
            r == Ok::<bool, Error>(false)
        } else {
            r matches Err(Error::Rejected(m)) && m@ == reason_text(rej@)
        },
    }
}

/// The line `status` prints: `available; card=<id>` for an available code,
/// `<label>: <reason>` for a refused one.
pub open spec fn status_line(status: ProbeStatus) -> Seq<char> {
    match status {
        ProbeStatus::Available(access) => "available; card="@ + access_card_id(access),
        ProbeStatus::Unavailable(rej) => status_label(rej@) + ": "@ + reason_text(rej@),
    }
}

/// Whether the probed code exists (see `exists_outcome`).
pub fn exists_answer(status: &ProbeStatus) -> (r: Result<bool, Error>)
    ensures
        exists_outcome(*status, r),
{
    match status {
        ProbeStatus::Available(_) => Ok(true),
        ProbeStatus::Unavailable(rejection) => match rejection.code_exists() {
            Some(b) => Ok(b),
            None => Err(Error::Rejected(rejection.reason())),
        },
    }
}

/// Whether the probed code is available now (see `available_outcome`).
pub fn available_answer(status: &ProbeStatus) -> (r: Result<bool, Error>)
    ensures
        available_outcome(*status, r),
{
    match status {
        ProbeStatus::Available(_) => Ok(true),
        ProbeStatus::Unavailable(rejection) => if rejection.is_recognized() {
            Ok(false)
        } else {
            Err(Error::Rejected(rejection.reason()))
        },
    }
}

/// The status line of a probed code (see `status_line`).
pub fn status_report(status: &ProbeStatus) -> (r: String)
    ensures
        r@ == status_line(*status),
{
    match status {
        ProbeStatus::Available(access) => concat("available; card=", access.card_id()),
        ProbeStatus::Unavailable(rejection) => {
            let mut line = String::from_str(rejection.status());
            line.append(": ");
            let reason = rejection.reason();
            line.append(reason.as_str());
            line
        },
    }
}

/// The exit status for a yes/no answer: 0 for yes, 1 for no.
pub fn answer_exit_code(answer: bool) -> (r: u8)
    ensures
        r == (if answer { 0u8 } else { 1u8 }),
{
    if answer {
        0
    } else {
        1
    }
}

/// A code that `available` answers yes for is one that `exists` answers yes for.
pub proof fn lemma_available_implies_exists(
    status: ProbeStatus,
    available: Result<bool, Error>,
    exists: Result<bool, Error>,
)
    requires
        available_outcome(status, available),
        exists_outcome(status, exists),
        available == Ok::<bool, Error>(true),
    ensures
        exists == Ok::<bool, Error>(true),
{
}

/// A refusal made only of known rejection codes answers both queries without
/// an error: `available` says no, and `exists` says yes or no.
pub proof fn lemma_recognized_refusal_answers(
    rejection: CodeRejection,
    available: Result<bool, Error>,
    exists: Result<bool, Error>,
)
    requires
        all_known(rejection@),
        available_outcome(ProbeStatus::Unavailable(rejection), available),
        exists_outcome(ProbeStatus::Unavailable(rejection), exists),
    ensures
        available == Ok::<bool, Error>(false),
        exists is Ok,
{
    lemma_recognized_rejection_decides(rejection@);
}

/// An available code is answered yes by both `available` and `exists`, and
/// its status line names its card, whether or not it asks the user to log in.
pub proof fn lemma_available_code_answers(
    access: AttendanceAccess,
    available: Result<bool, Error>,
    exists: Result<bool, Error>,
)
    requires
        available_outcome(ProbeStatus::Available(access), available),
        exists_outcome(ProbeStatus::Available(access), exists),
    ensures
        available == Ok::<bool, Error>(true),
        exists == Ok::<bool, Error>(true),
        status_line(ProbeStatus::Available(access)) == "available; card="@ + access_parts(access).1,
{
}

/// For a refused code, `exists` says no when an error is `CannotDecodeCode`,
/// `NoSuchAttendCord` or `InvalidCallNumber`; otherwise yes when there are
/// errors and all are known rejection codes; otherwise it fails with the
/// rejection's explanation. `available` says no exactly for a non-empty list
/// of known codes, and fails with the explanation otherwise; it never says yes.
pub proof fn lemma_refused_code_answers(
    rejection: CodeRejection,
    available: Result<bool, Error>,
    exists: Result<bool, Error>,
)
    requires
        available_outcome(ProbeStatus::Unavailable(rejection), available),
        exists_outcome(ProbeStatus::Unavailable(rejection), exists),
    ensures
        (exists|i: int|
            0 <= i < rejection@.len() && (#[trigger] rejection@[i] == "CannotDecodeCode"@
                || rejection@[i] == "NoSuchAttendCord"@ || rejection@[i] == "InvalidCallNumber"@))
            ==> exists == Ok::<bool, Error>(false),
        ((forall|i: int|
            0 <= i < rejection@.len() ==> #[trigger] rejection@[i] != "CannotDecodeCode"@
                && rejection@[i] != "NoSuchAttendCord"@ && rejection@[i] != "InvalidCallNumber"@)
            && rejection@.len() > 0 && (forall|i: int|
            0 <= i < rejection@.len() ==> is_known_rejection_code(#[trigger] rejection@[i])))
            ==> exists == Ok::<bool, Error>(true),
        exists is Err ==> (exists matches Err(Error::Rejected(m)) && m@ == reason_text(rejection@)),
        available != Ok::<bool, Error>(true),
        available == Ok::<bool, Error>(false) <==> (rejection@.len() > 0 && forall|i: int|
            0 <= i < rejection@.len() ==> is_known_rejection_code(#[trigger] rejection@[i])),
        available is Err ==> (available matches Err(Error::Rejected(m)) && m@ == reason_text(rejection@)),
{
    if exists|i: int|
        0 <= i < rejection@.len() && (#[trigger] rejection@[i] == "CannotDecodeCode"@
            || rejection@[i] == "NoSuchAttendCord"@ || rejection@[i] == "InvalidCallNumber"@) {
        let i = choose|i: int|
            0 <= i < rejection@.len() && (#[trigger] rejection@[i] == "CannotDecodeCode"@
                || rejection@[i] == "NoSuchAttendCord"@ || rejection@[i] == "InvalidCallNumber"@);
        assert(is_absence_code(rejection@[i]));
    }
}

} // verus!
