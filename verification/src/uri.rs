//! The key and the label of a document, from its URI.

use crate::analysis::{next_step, source_label, StageEvent, Step};
use tower_lsp::lsp_types::Url;
use vstd::prelude::*;

verus! {

/// A parsed URI, as the protocol types carry it. Nothing is known of what
/// it holds.
#[verifier::external_type_specification]
#[verifier::external_body]
pub struct ExUrl(tower_lsp::lsp_types::Url);

/// The URI written out, as `Url`'s `to_string` gives it.
pub uninterp spec fn uri_text(uri: Url) -> Seq<char>;

/// The path in the file system that the URI stands for, if it stands for
/// one, as `Url::to_file_path` gives it.
pub uninterp spec fn uri_file_path(uri: Url) -> Option<Seq<char>>;

/// `Url::to_file_path`: the path in the file system that the URI stands
/// for, if it stands for one, as text. The answer depends on the URI alone;
/// which URIs have a path, and which, is not claimed.
#[verifier::external_body]
fn file_path_of(uri: &Url) -> (path: Option<String>)
    ensures
        match path {
            Some(p) => uri_file_path(*uri) == Some(p@),
            None => uri_file_path(*uri) is None,
        },
{
    match uri.to_file_path() {
        Ok(p) => Some(p.to_string_lossy().to_string()),
        Err(_) => None,
    }
}

/// `Url`'s `to_string`: the URI written out. The text depends on the URI
/// alone; what it holds is not claimed.
#[verifier::external_body]
fn text_of(uri: &Url) -> (text: String)
    ensures
        text@ == uri_text(*uri),
{
    uri.to_string()
}

/// The label under which the diagnostics of the document `uri` are filed:
/// its path in the file system where the URI stands for one, else the URI
/// written out.
pub open spec fn uri_label(uri: Url) -> Seq<char> {
    match uri_file_path(uri) {
        Some(p) => p,
        None => uri_text(uri),
    }
}

/// The URI written out: the key under which its document is stored.
pub fn document_key(uri: &Url) -> (key: String)
    ensures
        key@ == uri_text(*uri),
{
    text_of(uri)
}

/// The label of the document `uri`: its path in the file system where the
/// URI stands for one, else the URI written out.
pub fn document_label(uri: &Url) -> (label: String)
    ensures
        label@ == uri_label(*uri),
{
    let path = file_path_of(uri);
    let text = text_of(uri);
    source_label(path, text.as_str())
}

/// Two passes over one text of one document that get the same report end
/// in the same step, and so in the same diagnostic, whichever labels were
/// computed for them from the document's URI.
pub proof fn lemma_analysis_repeatable_for_uri(
    text: Seq<char>,
    uri: Url,
    event: &StageEvent,
    first_label: Seq<char>,
    second_label: Seq<char>,
    first: Step,
    second: Step,
)
    requires
        event.wf(),
        first_label == uri_label(uri),
        second_label == uri_label(uri),
        first@ == next_step(text, first_label, event),
        second@ == next_step(text, second_label, event),
    ensures
        first@ == second@,
{
}

} // verus!
