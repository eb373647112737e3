//! The outcomes of probing an attendance code.
use vstd::prelude::*;

use crate::address::PageUrl;
use crate::protocol::page::CodeRejection;

verus! {

/// How an available attendance code can be answered.
#[derive(Debug)]
pub enum AttendanceAccess {
    /// The service asks the user to log in first.
    AuthenticationRequired { card_id: String, login_url: PageUrl },
    /// The service shows the confirmation page directly.
    ConfirmationAvailable { card_id: String, page_url: PageUrl },
}

/// The card ID of an access.
pub open spec fn access_card_id(a: AttendanceAccess) -> Seq<char> {
    match a {
        AttendanceAccess::AuthenticationRequired { card_id, .. } => card_id@,
        AttendanceAccess::ConfirmationAvailable { card_id, .. } => card_id@,
    }
}

/// Whether an access asks the user to log in, its card ID, and the URL it
/// leads to (serialization and path).
pub open spec fn access_parts(a: AttendanceAccess) -> (bool, Seq<char>, (Seq<char>, Seq<char>)) {
    match a {
        AttendanceAccess::AuthenticationRequired { card_id, login_url } => (true, card_id@, login_url@),
        AttendanceAccess::ConfirmationAvailable { card_id, page_url } => (false, card_id@, page_url@),
    }
}

impl AttendanceAccess {
    /// The ID of the attendance card the code belongs to.
    pub fn card_id(&self) -> (r: &str)
        ensures
            r@ == access_card_id(*self),
    {
        match self {
            AttendanceAccess::AuthenticationRequired { card_id, .. } => card_id.as_str(),
            AttendanceAccess::ConfirmationAvailable { card_id, .. } => card_id.as_str(),
        }
    }
}

/// The outcome of probing an attendance code.
#[derive(Debug)]
pub enum ProbeStatus {
    Available(AttendanceAccess),
    Unavailable(CodeRejection),
}

} // verus!
