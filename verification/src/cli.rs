//! The command line: its commands, their arguments, and the check on attendance codes.
use vstd::prelude::*;

use crate::text::{chars_of, is_digit};

verus! {

/// The parsed command line.
pub struct Cli {
    pub command: Command,
}

/// The commands of the program.
pub enum Command {
    /// Authenticate and submit an attendance code
    Attend(AttendArgs),
    /// Print whether an attendance code exists
    Exists(QueryArgs),
    /// Print whether an attendance code is currently available
    Available(QueryArgs),
    /// Show the current status of an attendance code
    Status(QueryArgs),
}

/// Arguments of `attend`.
pub struct AttendArgs {
    /// 9-digit attendance code
    pub code: String,
    /// Override the HTTP User-Agent header
    pub user_agent: Option<String>,
    pub verbose: bool,
}

/// Arguments of the query commands.
pub struct QueryArgs {
    /// 9-digit attendance code
    pub code: String,
    /// Override the HTTP User-Agent header
    pub user_agent: Option<String>,
    pub verbose: bool,
}

/// An attendance code: exactly nine ASCII digits.
pub open spec fn is_valid_code(code: Seq<char>) -> bool {
    &&& code.len() == 9
    &&& forall|i: int| 0 <= i < code.len() ==> #[trigger] is_digit(code[i])
}

/// Accepts `code` unchanged when it is exactly nine ASCII digits, and refuses
/// it with the message "code must be exactly 9 ASCII digits" otherwise.
pub fn validate_code(code: &str) -> (r: Result<String, String>)
    ensures
        r is Ok <==> is_valid_code(code@),
        r matches Ok(s) ==> s@ == code@,
        r matches Err(m) ==> m@ == "code must be exactly 9 ASCII digits"@,
{
    let cs = chars_of(code);
    let mut ok = cs.len() == 9;
    let mut i: usize = 0;
    while ok && i < cs.len()
        invariant
            cs@ == code@,
            cs@.len() == 9 ==> (ok <==> forall|j: int| 0 <= j < i ==> is_digit(#[trigger] cs@[j])),
            cs@.len() != 9 ==> !ok,
            i <= cs@.len(),
        decreases cs.len() - i,
    {
        if !('0' <= cs[i] && cs[i] <= '9') {
            ok = false;
        }
        i = i + 1;
    }
    if ok {
        Ok(String::from_str(code))
    } else {
        Err(String::from_str("code must be exactly 9 ASCII digits"))
    }
}

/// A code is valid exactly when it has nine characters, each of them, the
/// first included, between `0` and `9`.
pub proof fn lemma_valid_code_is_nine_digits(code: Seq<char>)
    ensures
        is_valid_code(code) <==> (code.len() == 9 && forall|i: int|
            0 <= i < 9 ==> '0' <= #[trigger] code[i] && code[i] <= '9'),
{
    if is_valid_code(code) {
        assert forall|i: int| 0 <= i < 9 implies '0' <= #[trigger] code[i] && code[i] <= '9' by {
            assert(is_digit(code[i]));
        }
    }
    if code.len() == 9 && forall|i: int| 0 <= i < 9 ==> '0' <= #[trigger] code[i] && code[i] <= '9' {
        assert forall|i: int| 0 <= i < code.len() implies #[trigger] is_digit(code[i]) by {
            assert('0' <= code[i] && code[i] <= '9');
        }
    }
}

} // verus!
