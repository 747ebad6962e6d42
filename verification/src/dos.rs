//! The files a door finds in its workspace: templates rendered with
//! `handlebars`, with DOS line ends, in code page 437.

use crate::error::{DoorError, DoorErrorView};
use crate::json::{value_of, value_of_model, Json, JsonView};
use crate::text::{
    chars_of, find_first, first_value, join_path, join_text, joined, pairs, uppercased,
};
use vstd::prelude::*;

verus! {

/// The text that `handlebars` renders from a template and its data, without
/// escaping; `None` where the rendering fails.
pub uninterp spec fn rendered(template: Seq<char>, data: serde_json::Value) -> Option<Seq<char>>;

/// What `yore` encodes a text to in code page 437, with `fallback` in place
/// of each character that the code page lacks.
pub uninterp spec fn cp437_encoded(text: Seq<char>, fallback: u8) -> Seq<u8>;

/// `Handlebars::render_template` on a fresh registry whose escape function
/// is `handlebars::no_escape`. For a template without a partial tag the
/// call returns, and whether it succeeds and the text it gives depend on the
/// template and the data alone. The error of a failed rendering is dropped:
/// which of two faults is reported is not settled by the input. A template
/// with a partial tag is left out, because a partial can include itself
/// without end, and what it renders can differ from call to call.
#[verifier::external_body]
fn render(template: &str, data: &serde_json::Value) -> (text: Option<String>)
    requires
        !has_partial_tag(template@),
    ensures
        crate::text::opt_view(text) == rendered(template@, *data),
{
    let mut registry = handlebars::Handlebars::new();
    registry.register_escape_fn(handlebars::no_escape);
    registry.render_template(template, data).ok()
}

/// `CP437.encode_lossy` of `yore`: the bytes depend on the text and the
/// fallback byte alone.
#[verifier::external_body]
fn encode_cp437(text: &str, fallback: u8) -> (bytes: Vec<u8>)
    ensures
        bytes@ == cp437_encoded(text@, fallback),
{
    yore::code_pages::CP437.encode_lossy(text, fallback).into_owned()
}

/// Whether `c` may stand between the two braces that open a tag and the
/// sign that tells the tag's kind: white space, `~` and `#`.
pub open spec fn is_tag_filler(c: char) -> bool {
    c == ' ' || c == '\t' || c == '\n' || c == '\r' || c == '~' || c == '#'
}

/// The index of the first character at or after `from` that is no tag
/// filler, or the length of the text.
pub open spec fn filler_end(s: Seq<char>, from: int) -> int
    decreases s.len() - from,
{
    if 0 <= from < s.len() && is_tag_filler(s[from]) {
        filler_end(s, from + 1)
    } else {
        from
    }
}

/// Whether a partial tag opens at `at`: two opening braces, then nothing
/// but tag fillers, then `>`.
pub open spec fn partial_tag_at(s: Seq<char>, at: int) -> bool {
    &&& 0 <= at
    &&& at + 1 < s.len()
    &&& s[at] == '{'
    &&& s[at + 1] == '{'
    &&& filler_end(s, at + 2) < s.len()
    &&& s[filler_end(s, at + 2)] == '>'
}

/// Whether a partial tag opens at or after `from`.
pub open spec fn partial_tag_from(s: Seq<char>, from: int) -> bool
    decreases s.len() - from,
{
    if 0 <= from < s.len() {
        partial_tag_at(s, from) || partial_tag_from(s, from + 1)
    } else {
        false
    }
}

/// Whether a template holds a partial tag, written `{{> name}}` or
/// `{{#> name}}`, with or without white space and `~` before the `>`. Text
/// that only looks like one, in a comment or behind a backslash, counts too.
pub open spec fn has_partial_tag(template: Seq<char>) -> bool {
    partial_tag_from(template, 0)
}

/// A partial tag is found exactly where one opens somewhere.
pub proof fn lemma_partial_tag(s: Seq<char>, from: int)
    requires
        0 <= from,
    ensures
        partial_tag_from(s, from) <==> exists|at: int| from <= at && #[trigger] partial_tag_at(s, at),
    decreases s.len() - from,
{
    if from < s.len() {
        lemma_partial_tag(s, from + 1);
        if partial_tag_from(s, from) {
            if partial_tag_at(s, from) {
            } else {
                let at = choose|at: int| from + 1 <= at && #[trigger] partial_tag_at(s, at);
                assert(from <= at && partial_tag_at(s, at));
            }
        } else {
            assert forall|at: int| from <= at implies !#[trigger] partial_tag_at(s, at) by {
                if at > from {
                    assert(from + 1 <= at);
                }
            }
        }
    } else {
        assert forall|at: int| from <= at implies !#[trigger] partial_tag_at(s, at) by {}
    }
}

/// Whether a template holds a partial tag.
pub fn holds_partial_tag(template: &str) -> (found: bool)
    ensures
        found == has_partial_tag(template@),
{
    let chars = chars_of(template);
    let mut at: usize = 0;
    while at < chars.len()
        invariant
            at <= chars.len(),
            chars@ == template@,
            has_partial_tag(template@) == partial_tag_from(chars@, at as int),
        decreases chars.len() - at,
    {
        if at + 1 < chars.len() && chars[at] == '{' && chars[at + 1] == '{' {
            let mut end: usize = at + 2;
            while end < chars.len() && (chars[end] == ' ' || chars[end] == '\t' || chars[end]
                == '\n' || chars[end] == '\r' || chars[end] == '~' || chars[end] == '#')
                invariant
                    at + 2 <= end <= chars.len(),
                    filler_end(chars@, at + 2) == filler_end(chars@, end as int),
                decreases chars.len() - end,
            {
                end += 1;
            }
            if end < chars.len() && chars[end] == '>' {
                return true;
            }
        }
        at += 1;
    }
    false
}

/// The byte written for a character that code page 437 lacks: `?`.
pub const FALLBACK: u8 = 63;

/// What a character becomes in a DOS text: a line feed gets a carriage
/// return before it.
pub open spec fn dos_char(c: char) -> Seq<char> {
    if c == '\n' {
        seq!['\r', '\n']
    } else {
        seq![c]
    }
}

/// A text with DOS line ends: every line feed is preceded by a carriage
/// return, also where one stands there already.
pub open spec fn dos_lines(text: Seq<char>) -> Seq<char>
    decreases text.len(),
{
    if text.len() == 0 {
        Seq::empty()
    } else {
        dos_lines(text.drop_last()) + dos_char(text.last())
    }
}

/// Gives a text DOS line ends.
pub fn to_dos_lines(text: &str) -> (dos: String)
    ensures
        dos@ == dos_lines(text@),
{
    let chars = chars_of(text);
    let mut dos = String::new();
    let mut i: usize = 0;
    while i < chars.len()
        invariant
            i <= chars.len(),
            dos@ == dos_lines(chars@.take(i as int)),
        decreases chars.len() - i,
    {
        let ghost before = dos@;
        if chars[i] == '\n' {
            dos.push('\r');
        }
        dos.push(chars[i]);
        proof {
            assert(chars@.take(i + 1).drop_last() =~= chars@.take(i as int));
            assert(dos@ =~= before + dos_char(chars@[i as int]));
        }
        i += 1;
    }
    assert(chars@.take(i as int) =~= chars@);
    dos
}

/// A file to write: where, and what.
#[derive(Debug, Clone, PartialEq, Eq)]
pub struct DosFile {
    pub path: String,
    pub bytes: Vec<u8>,
}

/// The mathematical value of a `DosFile`.
pub struct DosFileView {
    pub path: Seq<char>,
    pub bytes: Seq<u8>,
}

impl View for DosFile {
    type V = DosFileView;

    open spec fn view(&self) -> DosFileView {
        DosFileView { path: self.path@, bytes: self.bytes@ }
    }
}

/// The view of a text or an error.
pub open spec fn text_result(result: Result<String, DoorError>) -> Result<Seq<char>, DoorErrorView> {
    match result {
        Ok(text) => Ok(text@),
        Err(error) => Err(error@),
    }
}

/// The view of a file or an error.
pub open spec fn file_result(result: Result<DosFile, DoorError>) -> Result<
    DosFileView,
    DoorErrorView,
> {
    match result {
        Ok(file) => Ok(file@),
        Err(error) => Err(error@),
    }
}

/// A template rendered with its variables. A template that holds a partial
/// tag is not rendered.
pub open spec fn spec_render_string(template: Seq<char>, vars: JsonView) -> Result<
    Seq<char>,
    DoorErrorView,
> {
    if has_partial_tag(template) {
        Err(DoorErrorView::Render)
    } else {
        match rendered(template, value_of(vars)) {
            Some(text) => Ok(text),
            None => Err(DoorErrorView::Render),
        }
    }
}

/// The template stored under `name`, which is looked up as `name.hbr`,
/// rendered with its variables.
pub open spec fn spec_render_template(
    assets: Seq<(Seq<char>, Seq<char>)>,
    name: Seq<char>,
    vars: JsonView,
) -> Result<Seq<char>, DoorErrorView> {
    match first_value(assets, name + ".hbr"@) {
        Some(template) => spec_render_string(template, vars),
        None => Err(DoorErrorView::UnknownTemplate { name }),
    }
}

/// The file that a rendered template becomes: under the upper-case form of
/// its name inside `dir`, with DOS line ends, in code page 437.
pub open spec fn spec_dos_file(dir: Seq<char>, name: Seq<char>, text: Seq<char>) -> DosFileView {
    DosFileView {
        path: joined(dir, uppercased(name)),
        bytes: cp437_encoded(dos_lines(text), FALLBACK),
    }
}

/// The file that the template stored under `name` gives for these variables.
pub open spec fn spec_write_dos(
    assets: Seq<(Seq<char>, Seq<char>)>,
    name: Seq<char>,
    dir: Seq<char>,
    vars: JsonView,
) -> Result<DosFileView, DoorErrorView> {
    match spec_render_template(assets, name, vars) {
        Ok(text) => Ok(spec_dos_file(dir, name, text)),
        Err(error) => Err(error),
    }
}

/// The file that a rendered text becomes inside `dir`.
pub fn dos_file(dir: &str, name: &str, text: &str) -> (file: DosFile)
    ensures
        file@ == spec_dos_file(dir@, name@, text@),
{
    let dos = to_dos_lines(text);
    let bytes = encode_cp437(dos.as_str(), FALLBACK);
    let upper = name.to_uppercase();
    let path = join_path(dir, upper.as_str());
    DosFile { path, bytes }
}

/// The templates of the workspace files, each stored under its file name
/// followed by `.hbr`.
#[derive(Debug, Clone, PartialEq, Eq)]
pub struct Templates {
    pub assets: Vec<(String, String)>,
}

impl Templates {
    /// The templates stored as `assets`: pairs of a name and a template.
    pub fn new(assets: Vec<(String, String)>) -> (templates: Templates)
        ensures
            templates.assets == assets,
    {
        Templates { assets }
    }

    /// Renders a template with its variables. A template that holds a
    /// partial tag is refused with `DoorError::Render` and not rendered.
    pub fn render_string(&self, template: &str, vars: &Json) -> (text: Result<String, DoorError>)
        ensures
            text_result(text) == spec_render_string(template@, vars@),
    {
        if holds_partial_tag(template) {
            return Err(DoorError::Render);
        }
        let data = value_of_model(vars);
        match render(template, &data) {
            Some(text) => Ok(text),
            None => Err(DoorError::Render),
        }
    }

    /// Renders the template stored under `name`.
    pub fn render_template(&self, name: &str, vars: &Json) -> (text: Result<String, DoorError>)
        ensures
            text_result(text) == spec_render_template(pairs(self.assets@), name@, vars@),
    {
        let key = join_text(name, ".hbr");
        match find_first(&self.assets, key.as_str()) {
            Some(template) => self.render_string(template.as_str(), vars),
            None => Err(DoorError::UnknownTemplate { name: name.to_owned() }),
        }
    }

    /// Renders the template stored under `name` and makes the file of it
    /// that belongs into `dir`. Writing the file is left to the caller.
    pub fn write_dos(&self, name: &str, dir: &str, vars: &Json) -> (file: Result<
        DosFile,
        DoorError,
    >)
        ensures
            file_result(file) == spec_write_dos(pairs(self.assets@), name@, dir@, vars@),
    {
        match self.render_template(name, vars) {
            Ok(text) => Ok(dos_file(dir, name, text.as_str())),
            Err(error) => Err(error),
        }
    }
}

} // verus!
