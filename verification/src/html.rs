//! What the page logic reads of an HTML document, as the `scraper` crate parses it.
use scraper::node::Element;
use scraper::{Html, Selector};
use vstd::prelude::*;

verus! {

/// The attributes of an `<input>` or `<button>` element that the form logic reads.
#[derive(Debug)]
pub struct HtmlControl {
    pub name: Option<String>,
    pub input_type: Option<String>,
    pub checked: Option<String>,
    pub value: Option<String>,
}

/// A `<form>` element: its `method` and `action` attributes and the named
/// `<input>`/`<button>` elements inside it, in document order.
#[derive(Debug)]
pub struct HtmlForm {
    pub method: Option<String>,
    pub action: Option<String>,
    pub controls: Vec<HtmlControl>,
}

/// The text of an optional string.
pub open spec fn opt_text(o: Option<String>) -> Option<Seq<char>> {
    match o {
        Some(s) => Some(s@),
        None => None,
    }
}

/// The mathematical form of a control's attributes.
pub struct ControlAttrs {
    pub name: Option<Seq<char>>,
    pub input_type: Option<Seq<char>>,
    pub checked: Option<Seq<char>>,
    pub value: Option<Seq<char>>,
}

/// The mathematical form of a form element.
pub struct FormElement {
    pub method: Option<Seq<char>>,
    pub action: Option<Seq<char>>,
    pub controls: Seq<ControlAttrs>,
}

impl View for HtmlControl {
    type V = ControlAttrs;

    open spec fn view(&self) -> ControlAttrs {
        ControlAttrs {
            name: opt_text(self.name),
            input_type: opt_text(self.input_type),
            checked: opt_text(self.checked),
            value: opt_text(self.value),
        }
    }
}

impl View for HtmlForm {
    type V = FormElement;

    open spec fn view(&self) -> FormElement {
        FormElement {
            method: opt_text(self.method),
            action: opt_text(self.action),
            controls: self.controls@.map_values(|c: HtmlControl| c@),
        }
    }
}

/// The texts of the `<script>` elements of the document that `scraper` parses
/// from `html`, in document order; each is the concatenation of the element's
/// descendant text nodes.
pub uninterp spec fn html_script_texts(html: Seq<char>) -> Seq<Seq<char>>;

/// The `<form>` elements of the document that `scraper` parses from `html`, in
/// document order, each with the elements inside it that the selector
/// `input[name], button[name]` matches.
pub uninterp spec fn html_form_elements(html: Seq<char>) -> Seq<FormElement>;

/// Parses `html` with `Html::parse_document` and collects the text of
/// each element that `scraper::Selector` `script` matches (`ElementRef::text`);
/// the result is the one that `html_script_texts` names.
#[verifier::external_body]
pub fn script_texts(html: &str) -> (r: Vec<String>)
    ensures
        r@.len() == html_script_texts(html@).len(),
        forall|i: int| 0 <= i < r@.len() ==> #[trigger] r@[i]@ == html_script_texts(html@)[i],
{
    let document = Html::parse_document(html);
    let selector = Selector::parse("script").unwrap();
    let mut out = Vec::new();
    for script in document.select(&selector) {
        out.push(script.text().collect::<String>());
    }
    out
}

/// Parses `html` with `Html::parse_document` and copies, for each
/// `form` element, its `method` and `action` attributes and, for each element
/// inside it that `input[name], button[name]` matches, its `name`, `type`,
/// `checked` and `value` attributes (`scraper::node::Element::attr`); the
/// result is the one that `html_form_elements` names.
#[verifier::external_body]
pub fn form_elements(html: &str) -> (r: Vec<HtmlForm>)
    ensures
        r@.len() == html_form_elements(html@).len(),
        forall|i: int| 0 <= i < r@.len() ==> #[trigger] r@[i]@ == html_form_elements(html@)[i],
{
    let document = Html::parse_document(html);
    let forms = Selector::parse("form").unwrap();
    let named = Selector::parse("input[name], button[name]").unwrap();
    let attr = |e: &Element, name: &str| e.attr(name).map(String::from);
    let mut out = Vec::new();
    for form in document.select(&forms) {
        let mut controls = Vec::new();
        for c in form.select(&named) {
            let e = c.value();
            controls.push(HtmlControl { name: attr(e, "name"), input_type: attr(e, "type"), checked: attr(e, "checked"), value: attr(e, "value") });
        }
        out.push(HtmlForm { method: attr(form.value(), "method"), action: attr(form.value(), "action"), controls });
    }
    out
}

} // verus!
