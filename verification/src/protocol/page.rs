//! Reading the service's pages: rejection codes, forms, embedded JSON, card IDs and page kinds.
use vstd::prelude::*;

use crate::address::PageUrl;
use crate::error::Error;
use crate::html::{
    form_elements, html_form_elements, html_script_texts, script_texts, ControlAttrs,
    FormElement, HtmlControl, HtmlForm,
};
use crate::json::{json_prefix, read_json_prefix, string_elements, string_items, Json, JsonValue};
use crate::text::{
    ascii_lower, chars_eq, chars_of, contains, contains_seq, digit_prefix, find, first_index,
    is_first_occurrence, leading_digits_from, occurs_at, starts_with, starts_with_seq, string_of,
    to_ascii_lower, trim_start_from, trim_start_seq,
};

verus! {

// ---------------------------------------------------------------------------
// Rejection codes
// ---------------------------------------------------------------------------

/// Whether `cs` holds exactly the characters of `lit`.
pub fn text_is(cs: &[char], lit: &str) -> (r: bool)
    ensures
        r == (cs@ == lit@),
{
    let l = chars_of(lit);
    chars_eq(cs, l.as_slice())
}

/// The rejection codes the service is known to answer with.
pub open spec fn is_known_rejection_code(e: Seq<char>) -> bool {
    ||| e == "AnonymousNotPermitted"@
    ||| e == "CannotDecodeCode"@
    ||| e == "NoSuchAttendCord"@
    ||| e == "InvalidCallNumber"@
    ||| e == "InactiveCallNumber"@
    ||| e == "AuthenticationFailed"@
    ||| e == "BlankUsername"@
    ||| e == "BadUsername"@
    ||| e == "NotParticipant"@
    ||| e == "AlreadyClosed"@
    ||| e == "Interrupted"@
    ||| e == "ProhibitedChatRoom"@
    ||| e == "NoSubmitRoles"@
    ||| e == "NotYetAccepted"@
}

/// The rejection codes that say that an attendance code does not exist.
pub open spec fn is_absence_code(e: Seq<char>) -> bool {
    ||| e == "CannotDecodeCode"@
    ||| e == "NoSuchAttendCord"@
    ||| e == "InvalidCallNumber"@
}

/// The description of a rejection code; an unknown code is its own description.
pub open spec fn rejection_message(e: Seq<char>) -> Seq<char> {
    if e == "AnonymousNotPermitted"@ {
        "anonymous submission is not permitted"@
    } else if e == "CannotDecodeCode"@ {
        "server could not decode the attendance code"@
    } else if e == "NoSuchAttendCord"@ {
        "attendance code does not exist"@
    } else if e == "InvalidCallNumber"@ {
        "attendance code is invalid"@
    } else if e == "InactiveCallNumber"@ {
        "attendance code is inactive"@
    } else if e == "AuthenticationFailed"@ {
        "authentication failed"@
    } else if e == "BlankUsername"@ {
        "user ID is blank"@
    } else if e == "BadUsername"@ {
        "user ID is invalid"@
    } else if e == "NotParticipant"@ {
        "user is not a participant"@
    } else if e == "AlreadyClosed"@ {
        "attendance acceptance is already closed"@
    } else if e == "Interrupted"@ {
        "attendance submission was interrupted"@
    } else if e == "ProhibitedChatRoom"@ {
        "chat room submission is prohibited"@
    } else if e == "NoSubmitRoles"@ {
        "no role can submit attendance"@
    } else if e == "NotYetAccepted"@ {
        "attendance acceptance has not started"@
    } else {
        e
    }
}

/// Whether `error` is one of the rejection codes the service is known to answer with.
pub fn is_known_rejection(error: &str) -> (r: bool)
    ensures
        r == is_known_rejection_code(error@),
{
    let e = chars_of(error);
    let e = e.as_slice();
    text_is(e, "AnonymousNotPermitted") || text_is(e, "CannotDecodeCode") || text_is(
        e,
        "NoSuchAttendCord",
    ) || text_is(e, "InvalidCallNumber") || text_is(e, "InactiveCallNumber") || text_is(
        e,
        "AuthenticationFailed",
    ) || text_is(e, "BlankUsername") || text_is(e, "BadUsername") || text_is(e, "NotParticipant")
        || text_is(e, "AlreadyClosed") || text_is(e, "Interrupted") || text_is(
        e,
        "ProhibitedChatRoom",
    ) || text_is(e, "NoSubmitRoles") || text_is(e, "NotYetAccepted")
}

/// Whether `error` says that the attendance code does not exist.
fn is_absence(error: &str) -> (r: bool)
    ensures
        r == is_absence_code(error@),
{
    let e = chars_of(error);
    let e = e.as_slice();
    text_is(e, "CannotDecodeCode") || text_is(e, "NoSuchAttendCord") || text_is(
        e,
        "InvalidCallNumber",
    )
}

/// The description of a rejection code; an unknown code is returned as it is.
pub fn map_rejection<'a>(error: &'a str) -> (r: &'a str)
    ensures
        r@ == rejection_message(error@),
{
    let e = chars_of(error);
    let e = e.as_slice();
    if text_is(e, "AnonymousNotPermitted") {
        "anonymous submission is not permitted"
    } else if text_is(e, "CannotDecodeCode") {
        "server could not decode the attendance code"
    } else if text_is(e, "NoSuchAttendCord") {
        "attendance code does not exist"
    } else if text_is(e, "InvalidCallNumber") {
        "attendance code is invalid"
    } else if text_is(e, "InactiveCallNumber") {
        "attendance code is inactive"
    } else if text_is(e, "AuthenticationFailed") {
        "authentication failed"
    } else if text_is(e, "BlankUsername") {
        "user ID is blank"
    } else if text_is(e, "BadUsername") {
        "user ID is invalid"
    } else if text_is(e, "NotParticipant") {
        "user is not a participant"
    } else if text_is(e, "AlreadyClosed") {
        "attendance acceptance is already closed"
    } else if text_is(e, "Interrupted") {
        "attendance submission was interrupted"
    } else if text_is(e, "ProhibitedChatRoom") {
        "chat room submission is prohibited"
    } else if text_is(e, "NoSubmitRoles") {
        "no role can submit attendance"
    } else if text_is(e, "NotYetAccepted") {
        "attendance acceptance has not started"
    } else {
        error
    }
}

// ---------------------------------------------------------------------------
// Rejections of an attendance code
// ---------------------------------------------------------------------------

/// `code` is among `errors`.
pub open spec fn has_code(errors: Seq<Seq<char>>, code: Seq<char>) -> bool {
    exists|i: int| 0 <= i < errors.len() && errors[i] == code
}

/// Some error among `errors` says that the code does not exist.
pub open spec fn has_absence(errors: Seq<Seq<char>>) -> bool {
    exists|i: int| 0 <= i < errors.len() && is_absence_code(#[trigger] errors[i])
}

/// There are errors and every one of them is a known rejection code.
pub open spec fn all_known(errors: Seq<Seq<char>>) -> bool {
    &&& errors.len() > 0
    &&& forall|i: int| 0 <= i < errors.len() ==> is_known_rejection_code(#[trigger] errors[i])
}

/// Whether the code exists, as far as `errors` tell: not when one of them says
/// so, yes when they are all known rejections, unknown otherwise.
pub open spec fn existence_of(errors: Seq<Seq<char>>) -> Option<bool> {
    if has_absence(errors) {
        Some(false)
    } else if all_known(errors) {
        Some(true)
    } else {
        None
    }
}

/// The short status label for `errors`, by priority.
pub open spec fn status_label(errors: Seq<Seq<char>>) -> Seq<char> {
    if has_code(errors, "NoSuchAttendCord"@) {
        "not-found"@
    } else if has_code(errors, "CannotDecodeCode"@) || has_code(errors, "InvalidCallNumber"@) {
        "invalid"@
    } else if has_code(errors, "InactiveCallNumber"@) {
        "inactive"@
    } else if has_code(errors, "AlreadyClosed"@) {
        "closed"@
    } else if has_code(errors, "NotYetAccepted"@) {
        "not-yet-open"@
    } else {
        "unavailable"@
    }
}

/// `parts` joined with `sep` between consecutive parts.
pub open spec fn join_with(parts: Seq<Seq<char>>, sep: Seq<char>) -> Seq<char>
    decreases parts.len(),
{
    if parts.len() == 0 {
        Seq::empty()
    } else if parts.len() == 1 {
        parts[0]
    } else {
        join_with(parts.drop_last(), sep) + sep + parts.last()
    }
}

/// The explanation for `errors`: a fixed text when there are none, else the
/// descriptions of the codes joined with `, `.
pub open spec fn reason_text(errors: Seq<Seq<char>>) -> Seq<char> {
    if errors.len() == 0 {
        "server returned the attendance-code page"@
    } else {
        join_with(errors.map_values(|e: Seq<char>| rejection_message(e)), ", "@)
    }
}

/// The rejection codes that an embedded JSON value lists under `errors`:
/// the strings of that array, in order; nothing when there is no such array.
pub open spec fn listed_errors(json: Option<Json>) -> Seq<Seq<char>> {
    match json {
        Some(j) => match j.member("errors"@) {
            Some(m) => match m.elements() {
                Some(items) => string_elements(items),
                None => Seq::empty(),
            },
            None => Seq::empty(),
        },
        None => Seq::empty(),
    }
}

/// The rejection codes on the page that the service answers a refused code with.
#[derive(Debug)]
pub struct CodeRejection {
    errors: Vec<String>,
}

impl View for CodeRejection {
    type V = Seq<Seq<char>>;

    closed spec fn view(&self) -> Seq<Seq<char>> {
        self.errors@.map_values(|s: String| s@)
    }
}

impl CodeRejection {
    /// The rejection listed by an embedded JSON value (see `listed_errors`).
    pub fn from_embedded_json(json: Option<&JsonValue>) -> (r: Self)
        ensures
            r@ == listed_errors(opt_json(json)),
    {
        let errors = match json {
            Some(j) => match j.get("errors") {
                Some(m) => match m.as_array() {
                    Some(items) => {
                        assert(m@.elements()->0 =~= items@.map_values(|v: JsonValue| v@));
                        string_items(items)
                    },
                    None => Vec::new(),
                },
                None => Vec::new(),
            },
            None => Vec::new(),
        };
        let r = CodeRejection { errors };
        assert(r@ =~= listed_errors(opt_json(json)));
        r
    }

    /// The rejection on the page `html`: the codes listed by its embedded JSON.
    pub fn from_page(html: &str) -> (r: Self)
        ensures
            r@ == listed_errors(embedded_json_in(html_script_texts(html@))),
    {
        let json = extract_embedded_json(html);
        match &json {
            Some(j) => Self::from_embedded_json(Some(j)),
            None => Self::from_embedded_json(None),
        }
    }

    /// Whether `code` is among the errors.
    fn has_error(&self, code: &str) -> (r: bool)
        ensures
            r == has_code(self@, code@),
    {
        let c = chars_of(code);
        let mut i: usize = 0;
        while i < self.errors.len()
            invariant
                c@ == code@,
                i <= self.errors@.len(),
                forall|j: int| 0 <= j < i ==> self@[j] != code@,
            decreases self.errors.len() - i,
        {
            let e = chars_of(self.errors[i].as_str());
            if chars_eq(e.as_slice(), c.as_slice()) {
                assert(self@[i as int] == code@);
                return true;
            }
            i = i + 1;
        }
        false
    }

    /// Whether the attendance code exists: `Some(false)` when an error says it
    /// does not, `Some(true)` when every error is a known rejection, `None` otherwise.
    pub fn code_exists(&self) -> (r: Option<bool>)
        ensures
            r == existence_of(self@),
    {
        let mut i: usize = 0;
        while i < self.errors.len()
            invariant
                i <= self.errors@.len(),
                forall|j: int| 0 <= j < i ==> !is_absence_code(#[trigger] self@[j]),
            decreases self.errors.len() - i,
        {
            if is_absence(self.errors[i].as_str()) {
                assert(is_absence_code(self@[i as int]));
                return Some(false);
            }
            i = i + 1;
        }
        if self.is_recognized() {
            Some(true)
        } else {
            None
        }
    }

    /// The short status label: `not-found`, `invalid`, `inactive`, `closed`,
    /// `not-yet-open` or `unavailable`, by the first of those codes present.
    pub fn status(&self) -> (r: &'static str)
        ensures
            r@ == status_label(self@),
    {
        if self.has_error("NoSuchAttendCord") {
            "not-found"
        } else if self.has_error("CannotDecodeCode") || self.has_error("InvalidCallNumber") {
            "invalid"
        } else if self.has_error("InactiveCallNumber") {
            "inactive"
        } else if self.has_error("AlreadyClosed") {
            "closed"
        } else if self.has_error("NotYetAccepted") {
            "not-yet-open"
        } else {
            "unavailable"
        }
    }

    /// Whether there are errors and all of them are known rejection codes.
    pub fn is_recognized(&self) -> (r: bool)
        ensures
            r == all_known(self@),
    {
        if self.errors.len() == 0 {
            return false;
        }
        let mut i: usize = 0;
        while i < self.errors.len()
            invariant
                i <= self.errors@.len(),
                forall|j: int| 0 <= j < i ==> is_known_rejection_code(#[trigger] self@[j]),
            decreases self.errors.len() - i,
        {
            if !is_known_rejection(self.errors[i].as_str()) {
                assert(!is_known_rejection_code(self@[i as int]));
                return false;
            }
            i = i + 1;
        }
        true
    }

    /// The explanation shown for the rejection (see `reason_text`).
    pub fn reason(&self) -> (r: String)
        ensures
            r@ == reason_text(self@),
    {
        if self.errors.len() == 0 {
            return String::from_str("server returned the attendance-code page");
        }
        let ghost msgs = self@.map_values(|e: Seq<char>| rejection_message(e));
        let mut out = String::from_str(map_rejection(self.errors[0].as_str()));
        assert(msgs.take(1) =~= seq![msgs[0]]);
        let mut i: usize = 1;
        while i < self.errors.len()
            invariant
                1 <= i <= self.errors@.len(),
                msgs == self@.map_values(|e: Seq<char>| rejection_message(e)),
                out@ == join_with(msgs.take(i as int), ", "@),
            decreases self.errors.len() - i,
        {
            out.append(", ");
            out.append(map_rejection(self.errors[i].as_str()));
            assert(msgs.take(i + 1).drop_last() =~= msgs.take(i as int));
            i = i + 1;
        }
        assert(msgs.take(self.errors@.len() as int) =~= msgs);
        out
    }
}

// ---------------------------------------------------------------------------
// JSON embedded in a page's scripts
// ---------------------------------------------------------------------------

/// The text that introduces the JSON value embedded in a script.
pub open spec fn json_marker() -> Seq<char> {
    "var json ="@
}

/// The text after the first `var json =` of a script, without its leading
/// white space; `None` when the script has no such marker.
pub open spec fn json_source_of(script: Seq<char>) -> Option<Seq<char>> {
    if contains_seq(script, json_marker()) {
        Some(
            trim_start_seq(
                script.skip(first_index(script, json_marker()) + json_marker().len()),
            ),
        )
    } else {
        None
    }
}

/// The JSON value embedded in one script, if it has a marker and a value after it.
pub open spec fn json_in_script(script: Seq<char>) -> Option<Json> {
    match json_source_of(script) {
        Some(t) => json_prefix(t),
        None => None,
    }
}

/// The JSON value embedded in the first script that has one.
pub open spec fn embedded_json_in(scripts: Seq<Seq<char>>) -> Option<Json>
    decreases scripts.len(),
{
    if scripts.len() == 0 {
        None
    } else {
        match json_in_script(scripts[0]) {
            Some(j) => Some(j),
            None => embedded_json_in(scripts.drop_first()),
        }
    }
}

/// The text after the first `var json =` of `script`, with its leading white
/// space removed.
pub fn json_source(script: &str) -> (r: Option<String>)
    ensures
        match r {
            Some(t) => json_source_of(script@) == Some(t@),
            None => json_source_of(script@) is None,
        },
{
    let cs = chars_of(script);
    let marker = chars_of("var json =");
    match find(cs.as_slice(), marker.as_slice()) {
        Some(i) => {
            assert(occurs_at(cs@, marker@, i as int));
            let n = cs.len();
            let m = marker.len();
            assert(i + m <= n);
            let rest = trim_start_from(cs.as_slice(), i + m);
            Some(string_of(rest.as_slice()))
        },
        None => None,
    }
}

/// The JSON value embedded in the first of `scripts` that has one.
pub fn embedded_json_of_scripts(scripts: &Vec<String>) -> (r: Option<JsonValue>)
    ensures
        match r {
            Some(v) => embedded_json_in(scripts@.map_values(|s: String| s@)) == Some(v@),
            None => embedded_json_in(scripts@.map_values(|s: String| s@)) is None,
        },
{
    let ghost all = scripts@.map_values(|s: String| s@);
    let mut i: usize = 0;
    assert(all.skip(0) == all);
    while i < scripts.len()
        invariant
            i <= scripts@.len(),
            all == scripts@.map_values(|s: String| s@),
            embedded_json_in(all) == embedded_json_in(all.skip(i as int)),
        decreases scripts.len() - i,
    {
        assert(all.skip(i as int)[0] == scripts@[i as int]@);
        assert(all.skip(i as int).drop_first() == all.skip(i + 1));
        match json_source(scripts[i].as_str()) {
            Some(text) => {
                match read_json_prefix(text.as_str()) {
                    Some(v) => {
                        return Some(v);
                    },
                    None => {},
                }
            },
            None => {},
        }
        i = i + 1;
    }
    None
}

/// The JSON value embedded in a script of the page `html` (after `var json =`).
pub fn extract_embedded_json(html: &str) -> (r: Option<JsonValue>)
    ensures
        match r {
            Some(v) => embedded_json_in(html_script_texts(html@)) == Some(v@),
            None => embedded_json_in(html_script_texts(html@)) is None,
        },
{
    let scripts = script_texts(html);
    assert(scripts@.map_values(|s: String| s@) =~= html_script_texts(html@));
    embedded_json_of_scripts(&scripts)
}

// ---------------------------------------------------------------------------
// Forms
// ---------------------------------------------------------------------------

/// The mathematical form of a parsed form.
pub struct FormSpec {
    pub method: Seq<char>,
    pub action: Seq<char>,
    pub fields: Seq<(Seq<char>, Seq<char>)>,
}

/// A form of a page: its method (lower case), its action and the fields it
/// would submit, in order.
#[derive(Debug)]
pub struct ParsedForm {
    pub method: String,
    pub action: String,
    pub fields: Vec<(String, String)>,
}

/// The name/value pairs held in `fields`.
pub open spec fn pairs_of(fields: Seq<(String, String)>) -> Seq<(Seq<char>, Seq<char>)> {
    fields.map_values(|f: (String, String)| (f.0@, f.1@))
}

impl View for ParsedForm {
    type V = FormSpec;

    open spec fn view(&self) -> FormSpec {
        FormSpec { method: self.method@, action: self.action@, fields: pairs_of(self.fields@) }
    }
}

/// Some field of `fields` is named `name`.
pub open spec fn has_field(fields: Seq<(Seq<char>, Seq<char>)>, name: Seq<char>) -> bool {
    exists|i: int| 0 <= i < fields.len() && (#[trigger] fields[i]).0 == name
}

/// `fields` without the fields named `name`, the others in their order.
pub open spec fn without_field(fields: Seq<(Seq<char>, Seq<char>)>, name: Seq<char>) -> Seq<
    (Seq<char>, Seq<char>),
>
    decreases fields.len(),
{
    if fields.len() == 0 {
        Seq::empty()
    } else {
        let rest = without_field(fields.drop_last(), name);
        if fields.last().0 == name {
            rest
        } else {
            rest.push(fields.last())
        }
    }
}

/// `fields` with every field named `name` replaced by one field `(name, value)` at the end.
pub open spec fn with_field(fields: Seq<(Seq<char>, Seq<char>)>, name: Seq<char>, value: Seq<char>) -> Seq<
    (Seq<char>, Seq<char>),
> {
    without_field(fields, name).push((name, value))
}

impl ParsedForm {
    /// Whether the form has a field named `name`.
    pub fn contains(&self, name: &str) -> (r: bool)
        ensures
            r == has_field(self@.fields, name@),
    {
        let wanted = String::from_str(name);
        let mut i: usize = 0;
        while i < self.fields.len()
            invariant
                wanted@ == name@,
                i <= self.fields@.len(),
                forall|j: int| 0 <= j < i ==> (#[trigger] pairs_of(self.fields@)[j]).0 != name@,
            decreases self.fields.len() - i,
        {
            if self.fields[i].0 == wanted {
                assert(pairs_of(self.fields@)[i as int].0 == name@);
                return true;
            }
            i = i + 1;
        }
        false
    }

    /// Sets the field `name` to `value`: every field of that name is removed
    /// and `(name, value)` is appended; the method, the action and the other
    /// fields stay as they were.
    pub fn set(&mut self, name: &str, value: String)
        ensures
            final(self)@.fields == with_field(old(self)@.fields, name@, value@),
            final(self)@.method == old(self)@.method,
            final(self)@.action == old(self)@.action,
    {
        let wanted = String::from_str(name);
        let ghost old_pairs = pairs_of(self.fields@);
        let mut kept: Vec<(String, String)> = Vec::new();
        let mut i: usize = 0;
        let n = self.fields.len();
        while i < n
            invariant
                n == self.fields@.len(),
                old_pairs == pairs_of(self.fields@),
                wanted@ == name@,
                i <= n,
                pairs_of(kept@) == without_field(old_pairs.take(i as int), name@),
            decreases n - i,
        {
            assert(old_pairs.take(i + 1).drop_last() =~= old_pairs.take(i as int));
            if !(self.fields[i].0 == wanted) {
                let f = (self.fields[i].0.clone(), self.fields[i].1.clone());
                kept.push(f);
                assert(pairs_of(kept@) =~= without_field(old_pairs.take(i as int), name@).push(
                    old_pairs[i as int],
                ));
            }
            i = i + 1;
        }
        assert(old_pairs.take(n as int) =~= old_pairs);
        kept.push((wanted, value));
        assert(pairs_of(kept@) =~= with_field(old_pairs, name@, value@));
        self.fields = kept;
    }
}

/// The field a control contributes: its name and value (empty when absent),
/// except for an unchecked checkbox or radio button and for a control without
/// a name. A control without a `type` is a text control.
pub open spec fn control_field(c: ControlAttrs) -> Option<(Seq<char>, Seq<char>)> {
    match c.name {
        None => None,
        Some(name) => {
            let t = match c.input_type {
                Some(t) => t,
                None => "text"@,
            };
            if (t == "checkbox"@ || t == "radio"@) && c.checked is None {
                None
            } else {
                Some(
                    (
                        name,
                        match c.value {
                            Some(v) => v,
                            None => Seq::empty(),
                        },
                    ),
                )
            }
        },
    }
}

/// The fields that `controls` contribute, in order.
pub open spec fn control_fields(controls: Seq<ControlAttrs>) -> Seq<(Seq<char>, Seq<char>)>
    decreases controls.len(),
{
    if controls.len() == 0 {
        Seq::empty()
    } else {
        let rest = control_fields(controls.drop_last());
        match control_field(controls.last()) {
            Some(f) => rest.push(f),
            None => rest,
        }
    }
}

/// The parsed form of a form element: its method in ASCII lower case (`get`
/// when absent), its action (empty when absent) and its controls' fields.
pub open spec fn form_of(e: FormElement) -> FormSpec {
    FormSpec {
        method: ascii_lower(
            match e.method {
                Some(m) => m,
                None => "get"@,
            },
        ),
        action: match e.action {
            Some(a) => a,
            None => Seq::empty(),
        },
        fields: control_fields(e.controls),
    }
}

/// A copy of an optional string, or the empty string.
fn text_or_empty(o: &Option<String>) -> (r: String)
    ensures
        r@ == match o {
            Some(s) => s@,
            None => Seq::<char>::empty(),
        },
{
    match o {
        Some(s) => s.clone(),
        None => String::new(),
    }
}

/// The field a control contributes (see `control_field`).
pub fn parse_control(control: &HtmlControl) -> (r: Option<(String, String)>)
    ensures
        match r {
            Some(f) => control_field(control@) == Some((f.0@, f.1@)),
            None => control_field(control@) is None,
        },
{
    match &control.name {
        None => None,
        Some(name) => {
            let t = match &control.input_type {
                Some(t) => chars_of(t.as_str()),
                None => chars_of("text"),
            };
            if (text_is(t.as_slice(), "checkbox") || text_is(t.as_slice(), "radio"))
                && control.checked.is_none() {
                None
            } else {
                Some((name.clone(), text_or_empty(&control.value)))
            }
        },
    }
}

/// The parsed form of a form element (see `form_of`).
pub fn form_from_element(form: &HtmlForm) -> (r: ParsedForm)
    ensures
        r@ == form_of(form@),
{
    let method = match &form.method {
        Some(m) => chars_of(m.as_str()),
        None => chars_of("get"),
    };
    let method = to_ascii_lower(method.as_slice());
    let ghost all = form@.controls;
    let mut fields: Vec<(String, String)> = Vec::new();
    let mut i: usize = 0;
    while i < form.controls.len()
        invariant
            all == form@.controls,
            all.len() == form.controls@.len(),
            i <= all.len(),
            pairs_of(fields@) == control_fields(all.take(i as int)),
        decreases form.controls.len() - i,
    {
        assert(all.take(i + 1).drop_last() =~= all.take(i as int));
        assert(all.take(i + 1).last() == form.controls@[i as int]@);
        match parse_control(&form.controls[i]) {
            Some(f) => {
                fields.push(f);
                assert(pairs_of(fields@) =~= control_fields(all.take(i as int)).push(
                    control_field(all[i as int]).unwrap(),
                ));
            },
            None => {},
        }
        i = i + 1;
    }
    assert(all.take(all.len() as int) =~= all);
    ParsedForm {
        method: string_of(method.as_slice()),
        action: text_or_empty(&form.action),
        fields,
    }
}

/// The parsed forms of form elements, in order.
pub fn forms_from_elements(forms: &Vec<HtmlForm>) -> (r: Vec<ParsedForm>)
    ensures
        r@.len() == forms@.len(),
        forall|i: int| 0 <= i < r@.len() ==> #[trigger] r@[i]@ == form_of(forms@[i]@),
{
    let mut out: Vec<ParsedForm> = Vec::new();
    let mut i: usize = 0;
    while i < forms.len()
        invariant
            i <= forms@.len(),
            out@.len() == i,
            forall|j: int| 0 <= j < i ==> #[trigger] out@[j]@ == form_of(forms@[j]@),
        decreases forms.len() - i,
    {
        out.push(form_from_element(&forms[i]));
        i = i + 1;
    }
    out
}

/// The forms of the page `html`, in document order.
pub fn extract_forms(html: &str) -> (r: Vec<ParsedForm>)
    ensures
        r@.len() == html_form_elements(html@).len(),
        forall|i: int| 0 <= i < r@.len() ==> #[trigger] r@[i]@ == form_of(html_form_elements(html@)[i]),
{
    let elements = form_elements(html);
    forms_from_elements(&elements)
}

// ---------------------------------------------------------------------------
// The authenticity token
// ---------------------------------------------------------------------------

/// The fields of all `forms`, form after form.
pub open spec fn all_fields(forms: Seq<FormSpec>) -> Seq<(Seq<char>, Seq<char>)>
    decreases forms.len(),
{
    if forms.len() == 0 {
        Seq::empty()
    } else {
        all_fields(forms.drop_last()) + forms.last().fields
    }
}

/// The value of the first field named `name`.
pub open spec fn first_value(fields: Seq<(Seq<char>, Seq<char>)>, name: Seq<char>) -> Option<Seq<char>>
    decreases fields.len(),
{
    if fields.len() == 0 {
        None
    } else if fields[0].0 == name {
        Some(fields[0].1)
    } else {
        first_value(fields.drop_first(), name)
    }
}

/// The mathematical form of an optional JSON value.
pub open spec fn opt_json(json: Option<&JsonValue>) -> Option<Json> {
    match json {
        Some(j) => Some(j@),
        None => None,
    }
}

/// The `authenticity_token` string member of an embedded JSON value.
pub open spec fn token_in_json(json: Option<Json>) -> Option<Seq<char>> {
    match json {
        Some(j) => match j.member("authenticity_token"@) {
            Some(m) => m.text(),
            None => None,
        },
        None => None,
    }
}

/// The authenticity token: the one in the embedded JSON, else the value of the
/// first form field named `authenticity_token`.
pub open spec fn authenticity_token_of(json: Option<Json>, forms: Seq<FormSpec>) -> Option<Seq<char>> {
    match token_in_json(json) {
        Some(t) => Some(t),
        None => first_value(all_fields(forms), "authenticity_token"@),
    }
}

/// The error for a page without an authenticity token.
pub open spec fn missing_token_error(e: Error) -> bool {
    e matches Error::Protocol(m) && m@ == "authenticity_token was not found"@
}

/// The `authenticity_token` string member of an embedded JSON value.
pub fn token_in_json_value(json: Option<&JsonValue>) -> (r: Option<String>)
    ensures
        match r {
            Some(t) => token_in_json(opt_json(json)) == Some(t@),
            None => token_in_json(opt_json(json)) is None,
        },
{
    match json {
        Some(j) => match j.get("authenticity_token") {
            Some(m) => match m.as_str() {
                Some(t) => Some(t.clone()),
                None => None,
            },
            None => None,
        },
        None => None,
    }
}

/// The value of the first field named `name` in `forms`, form after form.
pub fn first_field_value(forms: &Vec<ParsedForm>, name: &str) -> (r: Option<String>)
    ensures
        match r {
            Some(v) => first_value(all_fields(forms@.map_values(|f: ParsedForm| f@)), name@) == Some(v@),
            None => first_value(all_fields(forms@.map_values(|f: ParsedForm| f@)), name@) is None,
        },
{
    let ghost specs = forms@.map_values(|f: ParsedForm| f@);
    let wanted = String::from_str(name);
    let mut i: usize = 0;
    assert(specs.skip(0) =~= specs);
    while i < forms.len()
        invariant
            specs == forms@.map_values(|f: ParsedForm| f@),
            wanted@ == name@,
            i <= forms@.len(),
            first_value(all_fields(specs), name@) == first_value(all_fields(specs.skip(i as int)), name@),
        decreases forms.len() - i,
    {
        let fields = &forms[i].fields;
        let ghost pairs = pairs_of(fields@);
        proof {
            lemma_all_fields_first(specs.skip(i as int));
            assert(specs.skip(i as int)[0] == forms@[i as int]@);
            assert(specs.skip(i as int).drop_first() =~= specs.skip(i + 1));
            lemma_first_value_append(pairs, all_fields(specs.skip(i + 1)), name@);
        }
        let mut j: usize = 0;
        assert(pairs.skip(0) =~= pairs);
        while j < fields.len()
            invariant
                specs == forms@.map_values(|f: ParsedForm| f@),
                pairs == pairs_of(fields@),
                wanted@ == name@,
                j <= fields@.len(),
                first_value(pairs, name@) == first_value(pairs.skip(j as int), name@),
                first_value(all_fields(specs), name@) == match first_value(pairs, name@) {
                    Some(v) => Some(v),
                    None => first_value(all_fields(specs.skip(i + 1)), name@),
                },
            decreases fields.len() - j,
        {
            if fields[j].0 == wanted {
                assert(pairs.skip(j as int)[0] == pairs[j as int]);
                assert(pairs[j as int] == (fields@[j as int].0@, fields@[j as int].1@));
                let v = fields[j].1.clone();
                assert(first_value(pairs.skip(j as int), name@) == Some(v@));
                return Some(v);
            }
            assert(pairs.skip(j as int).drop_first() =~= pairs.skip(j + 1));
            j = j + 1;
        }
        assert(pairs.skip(j as int) =~= Seq::<(Seq<char>, Seq<char>)>::empty());
        i = i + 1;
    }
    None
}

/// The fields of a non-empty sequence of forms are those of its first form
/// followed by those of the rest.
proof fn lemma_all_fields_first(forms: Seq<FormSpec>)
    requires
        forms.len() > 0,
    ensures
        all_fields(forms) == forms[0].fields + all_fields(forms.drop_first()),
    decreases forms.len(),
{
    if forms.len() == 1 {
        assert(forms.drop_last() =~= Seq::<FormSpec>::empty());
        assert(forms.drop_first() =~= Seq::<FormSpec>::empty());
        assert(forms[0].fields + Seq::empty() =~= forms[0].fields);
        assert(Seq::empty() + forms[0].fields =~= forms[0].fields);
    } else {
        lemma_all_fields_first(forms.drop_last());
        assert(forms.drop_last().drop_first() =~= forms.drop_first().drop_last());
        assert(forms.drop_first().last() == forms.last());
        assert(forms[0].fields + all_fields(forms.drop_first()) =~= (forms[0].fields + all_fields(
            forms.drop_first().drop_last(),
        )) + forms.last().fields);
    }
}

/// The first field named `name` in `a + b` is the first in `a`, or else the first in `b`.
proof fn lemma_first_value_append(
    a: Seq<(Seq<char>, Seq<char>)>,
    b: Seq<(Seq<char>, Seq<char>)>,
    name: Seq<char>,
)
    ensures
        first_value(a + b, name) == match first_value(a, name) {
            Some(v) => Some(v),
            None => first_value(b, name),
        },
    decreases a.len(),
{
    if a.len() == 0 {
        assert(a + b =~= b);
    } else {
        assert((a + b).drop_first() =~= a.drop_first() + b);
        lemma_first_value_append(a.drop_first(), b, name);
    }
}

/// The authenticity token from an embedded JSON value and a page's forms (see
/// `authenticity_token_of`); an error when there is none.
pub fn authenticity_token_from(json: Option<&JsonValue>, forms: &Vec<ParsedForm>) -> (r: Result<String, Error>)
    ensures
        match r {
            Ok(t) => authenticity_token_of(opt_json(json), forms@.map_values(|f: ParsedForm| f@)) == Some(t@),
            Err(e) => authenticity_token_of(opt_json(json), forms@.map_values(|f: ParsedForm| f@)) is None
                && missing_token_error(e),
        },
{
    match token_in_json_value(json) {
        Some(t) => Ok(t),
        None => match first_field_value(forms, "authenticity_token") {
            Some(v) => Ok(v),
            None => Err(Error::Protocol(String::from_str("authenticity_token was not found"))),
        },
    }
}

/// The forms of the page `html`, as parsed forms.
pub open spec fn page_forms(html: Seq<char>) -> Seq<FormSpec> {
    html_form_elements(html).map_values(|e: FormElement| form_of(e))
}

/// The authenticity token of the page `html`: the `authenticity_token` member
/// of its embedded JSON, else the first form field of that name; an error when
/// there is none.
pub fn extract_authenticity_token(html: &str) -> (r: Result<String, Error>)
    ensures
        match r {
            Ok(t) => authenticity_token_of(embedded_json_in(html_script_texts(html@)), page_forms(html@)) == Some(t@),
            Err(e) => authenticity_token_of(embedded_json_in(html_script_texts(html@)), page_forms(html@)) is None
                && missing_token_error(e),
        },
{
    let json = extract_embedded_json(html);
    let from_json = match &json {
        Some(j) => token_in_json_value(Some(j)),
        None => token_in_json_value(None),
    };
    match from_json {
        Some(t) => Ok(t),
        None => {
            let forms = extract_forms(html);
            assert(forms@.map_values(|f: ParsedForm| f@) =~= page_forms(html@));
            match first_field_value(&forms, "authenticity_token") {
                Some(v) => Ok(v),
                None => Err(Error::Protocol(String::from_str("authenticity_token was not found"))),
            }
        },
    }
}

// ---------------------------------------------------------------------------
// Card IDs
// ---------------------------------------------------------------------------

/// The ASCII digits that follow the first occurrence of `marker` in `value`,
/// when there is at least one.
pub open spec fn card_id_after(value: Seq<char>, marker: Seq<char>) -> Option<Seq<char>> {
    if contains_seq(value, marker) {
        let id = digit_prefix(value.skip(first_index(value, marker) + marker.len()));
        if id.len() > 0 {
            Some(id)
        } else {
            None
        }
    } else {
        None
    }
}

/// The card ID in `value`: the digits after the first of the path markers
/// `/auth/tsukuba/`, `/attend-confirm/tsukuba/`, `/complete/tsukuba/` and
/// `/result/tsukuba/` (tried in that order) that is followed by a digit.
pub open spec fn card_id_of(value: Seq<char>) -> Option<Seq<char>> {
    match card_id_after(value, "/auth/tsukuba/"@) {
        Some(id) => Some(id),
        None => match card_id_after(value, "/attend-confirm/tsukuba/"@) {
            Some(id) => Some(id),
            None => match card_id_after(value, "/complete/tsukuba/"@) {
                Some(id) => Some(id),
                None => card_id_after(value, "/result/tsukuba/"@),
            },
        },
    }
}

/// The digits that follow the first occurrence of `marker` in `cs`, when there is one.
fn card_id_after_marker(cs: &[char], marker: &str) -> (r: Option<Vec<char>>)
    ensures
        match r {
            Some(id) => card_id_after(cs@, marker@) == Some(id@),
            None => card_id_after(cs@, marker@) is None,
        },
{
    let m = chars_of(marker);
    match find(cs, m.as_slice()) {
        Some(i) => {
            let n = cs.len();
            let k = m.len();
            assert(occurs_at(cs@, m@, i as int));
            assert(i + k <= n);
            let id = leading_digits_from(cs, i + k);
            if id.len() > 0 {
                Some(id)
            } else {
                None
            }
        },
        None => None,
    }
}

/// The card ID in `value` (see `card_id_of`).
pub fn card_id_in_text(value: &str) -> (r: Option<String>)
    ensures
        match r {
            Some(id) => card_id_of(value@) == Some(id@),
            None => card_id_of(value@) is None,
        },
{
    let cs = chars_of(value);
    let cs = cs.as_slice();
    let found = match card_id_after_marker(cs, "/auth/tsukuba/") {
        Some(id) => Some(id),
        None => match card_id_after_marker(cs, "/attend-confirm/tsukuba/") {
            Some(id) => Some(id),
            None => match card_id_after_marker(cs, "/complete/tsukuba/") {
                Some(id) => Some(id),
                None => card_id_after_marker(cs, "/result/tsukuba/"),
            },
        },
    };
    match found {
        Some(id) => Some(string_of(id.as_slice())),
        None => None,
    }
}

// ---------------------------------------------------------------------------
// Kinds of pages
// ---------------------------------------------------------------------------

/// The kinds of pages the service answers with.
#[derive(Debug, Clone, Copy, PartialEq, Eq, Structural)]
pub enum PageKind {
    Attend,
    Confirm,
    Done,
    Unknown,
}

/// A page as fetched: its HTTP status, its final URL and its body.
#[derive(Debug)]
pub struct Page {
    pub status: u16,
    pub url: PageUrl,
    pub body: String,
}

/// The kind of page a path leads to, where the path tells.
pub open spec fn kind_of_path(path: Seq<char>) -> Option<PageKind> {
    if starts_with_seq(path, "/complete/tsukuba/"@) || starts_with_seq(path, "/result/tsukuba/"@) {
        Some(PageKind::Done)
    } else if starts_with_seq(path, "/attend-confirm/tsukuba/"@) {
        Some(PageKind::Confirm)
    } else if path == "/attend/tsukuba"@ {
        Some(PageKind::Attend)
    } else {
        None
    }
}

/// The `url` string member of an embedded JSON value.
pub open spec fn url_in_json(json: Option<Json>) -> Option<Seq<char>> {
    match json {
        Some(j) => match j.member("url"@) {
            Some(m) => m.text(),
            None => None,
        },
        None => None,
    }
}

/// The kind of a page: by the path of its URL, else by the path that its
/// embedded JSON gives under `url`, else unknown.
pub open spec fn page_kind_of(json: Option<Json>, path: Seq<char>) -> PageKind {
    match kind_of_path(path) {
        Some(k) => k,
        None => match url_in_json(json) {
            Some(p) => match kind_of_path(p) {
                Some(k) => k,
                None => PageKind::Unknown,
            },
            None => PageKind::Unknown,
        },
    }
}

/// The kind of page that `path` leads to (see `kind_of_path`).
pub fn page_kind_from_path(path: &str) -> (r: Option<PageKind>)
    ensures
        r == kind_of_path(path@),
{
    let p = chars_of(path);
    let p = p.as_slice();
    if starts_with(p, chars_of("/complete/tsukuba/").as_slice()) || starts_with(
        p,
        chars_of("/result/tsukuba/").as_slice(),
    ) {
        Some(PageKind::Done)
    } else if starts_with(p, chars_of("/attend-confirm/tsukuba/").as_slice()) {
        Some(PageKind::Confirm)
    } else if text_is(p, "/attend/tsukuba") {
        Some(PageKind::Attend)
    } else {
        None
    }
}

/// The `url` string member of an embedded JSON value.
pub fn url_in_json_value(json: Option<&JsonValue>) -> (r: Option<String>)
    ensures
        match r {
            Some(u) => url_in_json(opt_json(json)) == Some(u@),
            None => url_in_json(opt_json(json)) is None,
        },
{
    match json {
        Some(j) => match j.get("url") {
            Some(m) => match m.as_str() {
                Some(u) => Some(u.clone()),
                None => None,
            },
            None => None,
        },
        None => None,
    }
}

/// The kind of the page `html` fetched from `url` (see `page_kind_of`).
pub fn page_kind(html: &str, url: &PageUrl) -> (r: PageKind)
    ensures
        r == page_kind_of(embedded_json_in(html_script_texts(html@)), url@.1),
{
    match page_kind_from_path(url.path()) {
        Some(k) => k,
        None => {
            let json = extract_embedded_json(html);
            let u = match &json {
                Some(j) => url_in_json_value(Some(j)),
                None => url_in_json_value(None),
            };
            match u {
                Some(p) => match page_kind_from_path(p.as_str()) {
                    Some(k) => k,
                    None => PageKind::Unknown,
                },
                None => PageKind::Unknown,
            }
        },
    }
}

/// The text a page shows once attendance has been submitted.
pub open spec fn submitted_mark() -> Seq<char> {
    "\u{63d0}\u{51fa}\u{6e08}\u{307f}"@
}

/// Whether a page shows that attendance was already submitted: it is a
/// completion page, or it holds the submitted mark, or, ignoring ASCII case,
/// `already submitted`.
pub open spec fn shows_done(json: Option<Json>, path: Seq<char>, html: Seq<char>) -> bool {
    ||| page_kind_of(json, path) == PageKind::Done
    ||| contains_seq(html, submitted_mark())
    ||| contains_seq(ascii_lower(html), "already submitted"@)
}

/// Whether the page `html` fetched from `url` shows that attendance was
/// already submitted (see `shows_done`).
pub fn is_done(html: &str, url: &PageUrl) -> (r: bool)
    ensures
        r == shows_done(embedded_json_in(html_script_texts(html@)), url@.1, html@),
{
    if page_kind(html, url) == PageKind::Done {
        return true;
    }
    let cs = chars_of(html);
    if contains(cs.as_slice(), chars_of("\u{63d0}\u{51fa}\u{6e08}\u{307f}").as_slice()) {
        return true;
    }
    let lower = to_ascii_lower(cs.as_slice());
    contains(lower.as_slice(), chars_of("already submitted").as_slice())
}

// ---------------------------------------------------------------------------
// Laws
// ---------------------------------------------------------------------------

/// A rejection made only of known rejection codes always tells whether the
/// code exists; and it only says that the code exists when all its codes are
/// known rejection codes.
pub proof fn lemma_recognized_rejection_decides(errors: Seq<Seq<char>>)
    ensures
        all_known(errors) ==> existence_of(errors) is Some,
        existence_of(errors) == Some(true) ==> all_known(errors),
{
}

/// A rejection says that the code does not exist exactly when its status
/// label is `not-found` or `invalid`.
pub proof fn lemma_absence_matches_status(errors: Seq<Seq<char>>)
    ensures
        existence_of(errors) == Some(false) <==> (status_label(errors) == "not-found"@
            || status_label(errors) == "invalid"@),
{
    reveal_strlit("not-found");
    reveal_strlit("invalid");
    reveal_strlit("inactive");
    reveal_strlit("closed");
    reveal_strlit("not-yet-open");
    reveal_strlit("unavailable");
    if has_absence(errors) {
        let i = choose|i: int| 0 <= i < errors.len() && is_absence_code(#[trigger] errors[i]);
        if errors[i] == "NoSuchAttendCord"@ {
            assert(has_code(errors, "NoSuchAttendCord"@));
        } else if errors[i] == "CannotDecodeCode"@ {
            assert(has_code(errors, "CannotDecodeCode"@));
        } else {
            assert(has_code(errors, "InvalidCallNumber"@));
        }
        assert(status_label(errors) == "not-found"@ || status_label(errors) == "invalid"@);
    } else {
        assert(!has_code(errors, "NoSuchAttendCord"@)) by {
            if has_code(errors, "NoSuchAttendCord"@) {
                let i = choose|i: int| 0 <= i < errors.len() && errors[i] == "NoSuchAttendCord"@;
                assert(is_absence_code(errors[i]));
            }
        }
        assert(!has_code(errors, "CannotDecodeCode"@)) by {
            if has_code(errors, "CannotDecodeCode"@) {
                let i = choose|i: int| 0 <= i < errors.len() && errors[i] == "CannotDecodeCode"@;
                assert(is_absence_code(errors[i]));
            }
        }
        assert(!has_code(errors, "InvalidCallNumber"@)) by {
            if has_code(errors, "InvalidCallNumber"@) {
                let i = choose|i: int| 0 <= i < errors.len() && errors[i] == "InvalidCallNumber"@;
                assert(is_absence_code(errors[i]));
            }
        }
        assert("not-found"@.len() == 9);
        assert("invalid"@.len() == 7);
        assert("inactive"@.len() == 8);
        assert("closed"@.len() == 6);
        assert("not-yet-open"@.len() == 12);
        assert("unavailable"@.len() == 11);
        assert(status_label(errors) != "not-found"@);
        assert(status_label(errors) != "invalid"@);
    }
}

/// A rejection code's description differs from the code exactly when the
/// code is a known one.
pub proof fn lemma_message_differs_iff_known(e: Seq<char>)
    ensures
        rejection_message(e) != e <==> is_known_rejection_code(e),
{
    reveal_strlit("AnonymousNotPermitted");
    reveal_strlit("anonymous submission is not permitted");
    reveal_strlit("CannotDecodeCode");
    reveal_strlit("server could not decode the attendance code");
    reveal_strlit("NoSuchAttendCord");
    reveal_strlit("attendance code does not exist");
    reveal_strlit("InvalidCallNumber");
    reveal_strlit("attendance code is invalid");
    reveal_strlit("InactiveCallNumber");
    reveal_strlit("attendance code is inactive");
    reveal_strlit("AuthenticationFailed");
    reveal_strlit("authentication failed");
    reveal_strlit("BlankUsername");
    reveal_strlit("user ID is blank");
    reveal_strlit("BadUsername");
    reveal_strlit("user ID is invalid");
    reveal_strlit("NotParticipant");
    reveal_strlit("user is not a participant");
    reveal_strlit("AlreadyClosed");
    reveal_strlit("attendance acceptance is already closed");
    reveal_strlit("Interrupted");
    reveal_strlit("attendance submission was interrupted");
    reveal_strlit("ProhibitedChatRoom");
    reveal_strlit("chat room submission is prohibited");
    reveal_strlit("NoSubmitRoles");
    reveal_strlit("no role can submit attendance");
    reveal_strlit("NotYetAccepted");
    reveal_strlit("attendance acceptance has not started");
    if is_known_rejection_code(e) {
        assert(rejection_message(e)[0] != e[0]);
    }
}

/// Distinct known rejection codes have distinct descriptions.
pub proof fn lemma_known_messages_distinct(e1: Seq<char>, e2: Seq<char>)
    requires
        is_known_rejection_code(e1),
        is_known_rejection_code(e2),
        e1 != e2,
    ensures
        rejection_message(e1) != rejection_message(e2),
{
    reveal_strlit("AnonymousNotPermitted");
    reveal_strlit("CannotDecodeCode");
    reveal_strlit("NoSuchAttendCord");
    reveal_strlit("InvalidCallNumber");
    reveal_strlit("InactiveCallNumber");
    reveal_strlit("AuthenticationFailed");
    reveal_strlit("BlankUsername");
    reveal_strlit("BadUsername");
    reveal_strlit("NotParticipant");
    reveal_strlit("AlreadyClosed");
    reveal_strlit("Interrupted");
    reveal_strlit("ProhibitedChatRoom");
    reveal_strlit("NoSubmitRoles");
    reveal_strlit("NotYetAccepted");
    reveal_strlit("anonymous submission is not permitted");
    reveal_strlit("server could not decode the attendance code");
    reveal_strlit("attendance code does not exist");
    reveal_strlit("attendance code is invalid");
    reveal_strlit("attendance code is inactive");
    reveal_strlit("authentication failed");
    reveal_strlit("user ID is blank");
    reveal_strlit("user ID is invalid");
    reveal_strlit("user is not a participant");
    reveal_strlit("attendance acceptance is already closed");
    reveal_strlit("attendance submission was interrupted");
    reveal_strlit("chat room submission is prohibited");
    reveal_strlit("no role can submit attendance");
    reveal_strlit("attendance acceptance has not started");
    assert("anonymous submission is not permitted"@.len() == 37);
    assert("server could not decode the attendance code"@.len() == 43);
    assert("attendance code does not exist"@.len() == 30);
    assert("attendance code is invalid"@.len() == 26);
    assert("attendance code is inactive"@.len() == 27);
    assert("authentication failed"@.len() == 21);
    assert("user ID is blank"@.len() == 16);
    assert("user ID is invalid"@.len() == 18);
    assert("user is not a participant"@.len() == 25);
    assert("attendance acceptance is already closed"@.len() == 39);
    assert("attendance submission was interrupted"@.len() == 37);
    assert("chat room submission is prohibited"@.len() == 34);
    assert("no role can submit attendance"@.len() == 29);
    assert("attendance acceptance has not started"@.len() == 37);
    assert("anonymous submission is not permitted"@[1] != "attendance submission was interrupted"@[1]);
    assert("anonymous submission is not permitted"@[1] != "attendance acceptance has not started"@[1]);
    assert("attendance submission was interrupted"@[11] != "attendance acceptance has not started"@[11]);
}

/// No field of `without_field(fields, name)` is named `name`, and every one
/// of its fields is a field of `fields`.
pub proof fn lemma_without_field(fields: Seq<(Seq<char>, Seq<char>)>, name: Seq<char>)
    ensures
        !has_field(without_field(fields, name), name),
        forall|i: int|
            0 <= i < without_field(fields, name).len() ==> fields.contains(
                #[trigger] without_field(fields, name)[i],
            ),
    decreases fields.len(),
{
    if fields.len() > 0 {
        lemma_without_field(fields.drop_last(), name);
        let rest = without_field(fields.drop_last(), name);
        assert forall|i: int| 0 <= i < without_field(fields, name).len() implies fields.contains(
            #[trigger] without_field(fields, name)[i],
        ) by {
            if i < rest.len() {
                let k = choose|k: int| 0 <= k < fields.drop_last().len() && fields.drop_last()[k] == rest[i];
                assert(fields[k] == rest[i]);
            } else {
                assert(fields[fields.len() - 1] == fields.last());
            }
        }
    }
}

/// After setting a field, the form has exactly one field of that name: the
/// last one, holding the value set; every other field was there before.
pub proof fn lemma_set_field(fields: Seq<(Seq<char>, Seq<char>)>, name: Seq<char>, value: Seq<char>)
    ensures
        has_field(with_field(fields, name, value), name),
        with_field(fields, name, value).last() == (name, value),
        forall|i: int|
            0 <= i < with_field(fields, name, value).len() - 1 ==> (#[trigger] with_field(
                fields,
                name,
                value,
            )[i]).0 != name && fields.contains(with_field(fields, name, value)[i]),
{
    lemma_without_field(fields, name);
    let w = with_field(fields, name, value);
    assert(w[w.len() - 1] == (name, value));
    assert forall|i: int| 0 <= i < w.len() - 1 implies (#[trigger] w[i]).0 != name && fields.contains(w[i]) by {
        assert(w[i] == without_field(fields, name)[i]);
    }
}

/// `digit_prefix(s)` is a prefix of `s` made of ASCII digits.
pub proof fn lemma_digit_prefix(s: Seq<char>)
    ensures
        digit_prefix(s).len() <= s.len(),
        digit_prefix(s) == s.take(digit_prefix(s).len() as int),
        forall|i: int| 0 <= i < digit_prefix(s).len() ==> crate::text::is_digit(#[trigger] digit_prefix(s)[i]),
        digit_prefix(s).len() < s.len() ==> !crate::text::is_digit(s[digit_prefix(s).len() as int]),
    decreases s.len(),
{
    if s.len() > 0 && crate::text::is_digit(s[0]) {
        lemma_digit_prefix(s.drop_first());
        let d = digit_prefix(s.drop_first());
        assert(digit_prefix(s) == seq![s[0]] + d);
        assert(seq![s[0]] + s.drop_first().take(d.len() as int) =~= s.take(d.len() + 1 as int));
        assert forall|i: int| 0 <= i < digit_prefix(s).len() implies crate::text::is_digit(#[trigger] digit_prefix(s)[i]) by {
            if i > 0 {
                assert(digit_prefix(s)[i] == d[i - 1]);
            }
        }
        if digit_prefix(s).len() < s.len() {
            assert(s[digit_prefix(s).len() as int] == s.drop_first()[d.len() as int]);
        }
    } else {
        assert(s.take(0) =~= Seq::<char>::empty());
    }
}

/// A card ID is a non-empty run of ASCII digits that appears in the text it was found in.
pub proof fn lemma_card_id_is_digits(value: Seq<char>)
    ensures
        card_id_of(value) matches Some(id) ==> id.len() > 0 && (forall|i: int| 0 <= i < id.len() ==> crate::text::is_digit(#[trigger] id[i]))
            && contains_seq(value, id),
{
    if let Some(id) = card_id_of(value) {
        let m = if card_id_after(value, "/auth/tsukuba/"@) is Some {
            "/auth/tsukuba/"@
        } else if card_id_after(value, "/attend-confirm/tsukuba/"@) is Some {
            "/attend-confirm/tsukuba/"@
        } else if card_id_after(value, "/complete/tsukuba/"@) is Some {
            "/complete/tsukuba/"@
        } else {
            "/result/tsukuba/"@
        };
        assert(card_id_after(value, m) == Some(id));
        let w = choose|i: int| occurs_at(value, m, i);
        crate::text::lemma_first_index(value, m, w);
        let k = first_index(value, m) + m.len();
        let rest = value.skip(k);
        lemma_digit_prefix(rest);
        assert(value.subrange(k, k + id.len()) =~= id);
        assert(occurs_at(value, id, k));
    }
}

/// A path that names a completion page makes its page a completion page,
/// whatever the page holds.
pub proof fn lemma_done_path_is_done(json: Option<Json>, path: Seq<char>, html: Seq<char>)
    requires
        kind_of_path(path) == Some(PageKind::Done),
    ensures
        page_kind_of(json, path) == PageKind::Done,
        shows_done(json, path, html),
{
}

/// The status label is `not-found` exactly when `NoSuchAttendCord` is among
/// the errors. Without it, `CannotDecodeCode` or `InvalidCallNumber` make the
/// label `invalid`; without those, `InactiveCallNumber` makes it `inactive`,
/// then `AlreadyClosed` makes it `closed`, then `NotYetAccepted` makes it
/// `not-yet-open`; with none of these codes it is `unavailable`.
pub proof fn lemma_status_label_by_codes(errors: Seq<Seq<char>>)
    ensures
        status_label(errors) == "not-found"@ <==> exists|i: int|
            0 <= i < errors.len() && #[trigger] errors[i] == "NoSuchAttendCord"@,
        (forall|i: int| 0 <= i < errors.len() ==> #[trigger] errors[i] != "NoSuchAttendCord"@) ==> (
        (exists|i: int|
            0 <= i < errors.len() && (#[trigger] errors[i] == "CannotDecodeCode"@ || errors[i]
                == "InvalidCallNumber"@)) <==> status_label(errors) == "invalid"@),
        (forall|i: int|
            0 <= i < errors.len() ==> #[trigger] errors[i] != "NoSuchAttendCord"@ && errors[i]
                != "CannotDecodeCode"@ && errors[i] != "InvalidCallNumber"@) ==> (
        (exists|i: int| 0 <= i < errors.len() && #[trigger] errors[i] == "InactiveCallNumber"@)
            <==> status_label(errors) == "inactive"@),
        (forall|i: int|
            0 <= i < errors.len() ==> #[trigger] errors[i] != "NoSuchAttendCord"@ && errors[i]
                != "CannotDecodeCode"@ && errors[i] != "InvalidCallNumber"@ && errors[i]
                != "InactiveCallNumber"@) ==> ((exists|i: int|
            0 <= i < errors.len() && #[trigger] errors[i] == "AlreadyClosed"@) <==> status_label(errors)
            == "closed"@),
        (forall|i: int|
            0 <= i < errors.len() ==> #[trigger] errors[i] != "NoSuchAttendCord"@ && errors[i]
                != "CannotDecodeCode"@ && errors[i] != "InvalidCallNumber"@ && errors[i]
                != "InactiveCallNumber"@ && errors[i] != "AlreadyClosed"@) ==> ((exists|i: int|
            0 <= i < errors.len() && #[trigger] errors[i] == "NotYetAccepted"@) <==> status_label(errors)
            == "not-yet-open"@),
        (forall|i: int|
            0 <= i < errors.len() ==> #[trigger] errors[i] != "NoSuchAttendCord"@ && errors[i]
                != "CannotDecodeCode"@ && errors[i] != "InvalidCallNumber"@ && errors[i]
                != "InactiveCallNumber"@ && errors[i] != "AlreadyClosed"@ && errors[i]
                != "NotYetAccepted"@) ==> status_label(errors) == "unavailable"@,
{
    reveal_strlit("not-found");
    reveal_strlit("invalid");
    reveal_strlit("inactive");
    reveal_strlit("closed");
    reveal_strlit("not-yet-open");
    reveal_strlit("unavailable");
    assert("not-found"@.len() == 9);
    assert("invalid"@.len() == 7);
    assert("inactive"@.len() == 8);
    assert("closed"@.len() == 6);
    assert("not-yet-open"@.len() == 12);
    assert("unavailable"@.len() == 11);
}

/// Where the first occurrence of one of the card markers is followed by a
/// digit, and no marker tried before it occurs at all, the card ID is the
/// whole run of digits right after that occurrence.
pub proof fn lemma_card_id_position(v: Seq<char>, m: Seq<char>, i: int)
    requires
        m == "/auth/tsukuba/"@ || m == "/attend-confirm/tsukuba/"@ || m == "/complete/tsukuba/"@
            || m == "/result/tsukuba/"@,
        is_first_occurrence(v, m, i),
        i + m.len() < v.len(),
        crate::text::is_digit(v[i + m.len()]),
        m != "/auth/tsukuba/"@ ==> !contains_seq(v, "/auth/tsukuba/"@),
        (m == "/complete/tsukuba/"@ || m == "/result/tsukuba/"@) ==> !contains_seq(
            v,
            "/attend-confirm/tsukuba/"@,
        ),
        m == "/result/tsukuba/"@ ==> !contains_seq(v, "/complete/tsukuba/"@),
    ensures
        card_id_of(v) matches Some(id) && id.len() > 0 && occurs_at(v, id, i + m.len()) && (forall|j: int|
            0 <= j < id.len() ==> crate::text::is_digit(#[trigger] id[j])) && (i + m.len() + id.len()
            == v.len() || !crate::text::is_digit(v[i + m.len() + id.len()])),
{
    reveal_strlit("/auth/tsukuba/");
    reveal_strlit("/attend-confirm/tsukuba/");
    reveal_strlit("/complete/tsukuba/");
    reveal_strlit("/result/tsukuba/");
    assert("/auth/tsukuba/"@.len() == 14);
    assert("/attend-confirm/tsukuba/"@.len() == 24);
    assert("/complete/tsukuba/"@.len() == 18);
    assert("/result/tsukuba/"@.len() == 16);
    crate::text::lemma_first_index(v, m, i);
    crate::text::lemma_first_occurrence_unique(v, m, i, first_index(v, m));
    let k = i + m.len();
    let rest = v.skip(k);
    lemma_digit_prefix(rest);
    let id = digit_prefix(rest);
    assert(rest[0] == v[k]);
    assert(id == seq![rest[0]] + digit_prefix(rest.drop_first()));
    assert(card_id_after(v, m) == Some(id));
    assert(v.subrange(k, k + id.len()) =~= id);
    if k + id.len() < v.len() {
        assert(rest[id.len() as int] == v[k + id.len()]);
    }
}

/// When `/auth/tsukuba/` and `/attend-confirm/tsukuba/` give no card ID, the
/// card ID is the one after `/complete/tsukuba/`, where there is one.
pub proof fn lemma_card_id_from_complete(v: Seq<char>, d: Seq<char>)
    requires
        card_id_after(v, "/auth/tsukuba/"@) is None,
        card_id_after(v, "/attend-confirm/tsukuba/"@) is None,
        card_id_after(v, "/complete/tsukuba/"@) == Some(d),
    ensures
        card_id_of(v) == Some(d),
{
}

/// The explanation of one code is its description, and adding a code to a
/// non-empty rejection appends `, ` and that code's description.
pub proof fn lemma_reason_text_grows(errors: Seq<Seq<char>>, e: Seq<char>)
    ensures
        reason_text(seq![e]) == rejection_message(e),
        errors.len() > 0 ==> reason_text(errors.push(e)) == reason_text(errors) + ", "@
            + rejection_message(e),
{
    let f = |x: Seq<char>| rejection_message(x);
    assert(seq![e].map_values(f) =~= seq![rejection_message(e)]);
    if errors.len() > 0 {
        assert(errors.push(e).map_values(f).drop_last() =~= errors.map_values(f));
        assert(errors.push(e).map_values(f).last() == rejection_message(e));
    }
}

/// A page shows a completed submission when it holds the submitted mark, or
/// `already submitted` in any ASCII case, or its path or embedded URL names a
/// completion page; otherwise it does not.
pub proof fn lemma_done_signs(json: Option<Json>, path: Seq<char>, html: Seq<char>)
    ensures
        contains_seq(html, submitted_mark()) ==> shows_done(json, path, html),
        contains_seq(ascii_lower(html), "already submitted"@) ==> shows_done(json, path, html),
        (starts_with_seq(path, "/complete/tsukuba/"@) || starts_with_seq(path, "/result/tsukuba/"@))
            ==> shows_done(json, path, html),
        (kind_of_path(path) is None && (url_in_json(json) matches Some(u) && (starts_with_seq(
            u,
            "/complete/tsukuba/"@,
        ) || starts_with_seq(u, "/result/tsukuba/"@)))) ==> shows_done(json, path, html),
        (kind_of_path(path) != Some(PageKind::Done) && !contains_seq(html, submitted_mark())
            && !contains_seq(ascii_lower(html), "already submitted"@) && (kind_of_path(path) is Some
            || url_in_json(json) is None)) ==> !shows_done(json, path, html),
{
}

/// A page's own path decides its kind whenever it names one; only otherwise
/// does the URL in its embedded JSON.
pub proof fn lemma_path_kind_first(json: Option<Json>, path: Seq<char>)
    ensures
        kind_of_path(path) matches Some(k) ==> page_kind_of(json, path) == k,
        kind_of_path(path) is None ==> page_kind_of(json, path) == match url_in_json(json) {
            Some(u) => match kind_of_path(u) {
                Some(k) => k,
                None => PageKind::Unknown,
            },
            None => PageKind::Unknown,
        },
{
}

/// The value that `first_value` finds belongs to the earliest field with that
/// name; it finds none exactly when no field has the name.
pub proof fn lemma_first_value(fields: Seq<(Seq<char>, Seq<char>)>, name: Seq<char>)
    ensures
        first_value(fields, name) matches Some(v) ==> exists|i: int|
            0 <= i < fields.len() && #[trigger] fields[i] == (name, v) && forall|j: int|
                0 <= j < i ==> (#[trigger] fields[j]).0 != name,
        first_value(fields, name) is None <==> !has_field(fields, name),
    decreases fields.len(),
{
    if fields.len() > 0 {
        lemma_first_value(fields.drop_first(), name);
        if fields[0].0 != name {
            if let Some(v) = first_value(fields, name) {
                let i = choose|i: int|
                    0 <= i < fields.drop_first().len() && #[trigger] fields.drop_first()[i] == (name, v)
                        && forall|j: int| 0 <= j < i ==> (#[trigger] fields.drop_first()[j]).0 != name;
                assert(fields[i + 1] == (name, v));
                assert forall|j: int| 0 <= j < i + 1 implies (#[trigger] fields[j]).0 != name by {
                    if j > 0 {
                        assert(fields[j] == fields.drop_first()[j - 1]);
                    }
                }
            }
            if has_field(fields, name) {
                let k = choose|k: int| 0 <= k < fields.len() && (#[trigger] fields[k]).0 == name;
                assert(fields.drop_first()[k - 1] == fields[k]);
            }
            if has_field(fields.drop_first(), name) {
                let k = choose|k: int| 0 <= k < fields.drop_first().len() && (#[trigger] fields.drop_first()[k]).0 == name;
                assert(fields[k + 1] == fields.drop_first()[k]);
            }
        } else {
            assert(fields[0] == (name, fields[0].1));
        }
    }
}

/// The token in the embedded JSON wins; without one, the token is the value
/// of the earliest form field named `authenticity_token`, and there is none
/// exactly when no form has such a field.
pub proof fn lemma_token_sources(json: Option<Json>, forms: Seq<FormSpec>)
    ensures
        token_in_json(json) matches Some(t) ==> authenticity_token_of(json, forms) == Some(t),
        token_in_json(json) is None ==> (authenticity_token_of(json, forms) is None <==> !has_field(
            all_fields(forms),
            "authenticity_token"@,
        )),
        token_in_json(json) is None ==> (authenticity_token_of(json, forms) matches Some(v)
            ==> exists|i: int|
            0 <= i < all_fields(forms).len() && #[trigger] all_fields(forms)[i] == (
                "authenticity_token"@,
                v,
            )),
{
    lemma_first_value(all_fields(forms), "authenticity_token"@);
}

/// A control without a name gives no field, nor does an unchecked checkbox or
/// radio button; any other control gives its name and its value, or the empty
/// text when it has no value.
pub proof fn lemma_control_field_cases(c: ControlAttrs)
    ensures
        c.name is None ==> control_field(c) is None,
        (c.input_type == Some("checkbox"@) || c.input_type == Some("radio"@)) && c.checked is None
            ==> control_field(c) is None,
        (c.name matches Some(n) && !((c.input_type == Some("checkbox"@) || c.input_type == Some(
            "radio"@,
        )) && c.checked is None)) ==> control_field(c) == Some(
            (
                c.name->0,
                match c.value {
                    Some(v) => v,
                    None => Seq::<char>::empty(),
                },
            ),
        ),
{
    reveal_strlit("text");
    reveal_strlit("checkbox");
    reveal_strlit("radio");
    assert("text"@.len() == 4);
    assert("checkbox"@.len() == 8);
    assert("radio"@.len() == 5);
}

} // verus!
