//! The server's decisions over a session: what each notification does to
//! the open documents, and what is to be analysed or published after it.

use crate::analysis::{next_step, Diagnostic, DiagnosticView, StageEvent, StepView};
use crate::completion::{
    complete, labels, lemma_matching_sound, matching, name_views, plain_variables, CompletionItem,
};
use crate::position::{word_before, Position};
use crate::store::DocumentStore;
use vstd::prelude::*;

verus! {

/// How the editor sends a document's changes.
#[derive(Clone, Copy, Debug, PartialEq, Eq, Structural)]
pub enum TextDocumentSyncKind {
    /// Every change carries the whole new text.
    Full,
    /// A change carries the edited spans only.
    Incremental,
}

/// What the server can do.
#[derive(Debug)]
pub struct ServerCapabilities {
    pub text_document_sync: TextDocumentSyncKind,
    pub completion_trigger_characters: Vec<String>,
    pub completion_resolve_provider: bool,
}

/// The server's name and version.
#[derive(Debug)]
pub struct ServerInfo {
    pub name: String,
    pub version: String,
}

/// The answer to the editor's first request.
#[derive(Debug)]
pub struct InitializeResult {
    pub capabilities: ServerCapabilities,
    pub server_info: ServerInfo,
}

/// A text to run the front end on, and the document it belongs to.
#[derive(Debug)]
pub struct AnalysisRequest {
    pub uri: String,
    pub text: String,
}

/// The diagnostics of a document, as they are sent to the editor. They
/// replace whatever the editor showed for that document before.
#[derive(Debug)]
pub struct PublishDiagnostics {
    pub uri: String,
    pub diagnostics: Vec<Diagnostic>,
}

/// What is published after a pass: nothing for a clean document, the one
/// diagnostic for another.
pub open spec fn published(outcome: Option<DiagnosticView>) -> Seq<DiagnosticView> {
    match outcome {
        None => Seq::empty(),
        Some(d) => seq![d],
    }
}

/// The diagnostics as they are viewed.
pub open spec fn diagnostic_views(diagnostics: Seq<Diagnostic>) -> Seq<DiagnosticView> {
    diagnostics.map_values(|d: Diagnostic| d@)
}

/// The end of a pass as the diagnostic it gave, if any.
pub open spec fn outcome_view(outcome: Result<(), Diagnostic>) -> Option<DiagnosticView> {
    match outcome {
        Ok(_) => None,
        Err(d) => Some(d@),
    }
}

/// What a completion request is answered with: nothing where the document
/// is not open; else the labels, of the identifiers `names`, that begin
/// with the identifier left of the cursor.
pub open spec fn completion_labels(
    docs: Map<Seq<char>, Seq<char>>,
    uri: Seq<char>,
    position: Position,
    names: Seq<Seq<char>>,
) -> Option<Seq<Seq<char>>> {
    if docs.contains_key(uri) {
        Some(
            matching(
                names,
                word_before(docs[uri], position.line as nat, position.character as nat),
            ),
        )
    } else {
        None
    }
}

/// Turns the end of a pass over the document `uri` into what is sent to
/// the editor, and tells whether the symbol table of that pass is whole:
/// it is where the pass met no error.
pub fn check_and_publish(uri: &str, outcome: Result<(), Diagnostic>) -> (out: (
    PublishDiagnostics,
    bool,
))
    ensures
        out.0.uri@ == uri@,
        out.0.diagnostics@ == (match outcome {
            Ok(_) => Seq::<Diagnostic>::empty(),
            Err(d) => seq![d],
        }),
        diagnostic_views(out.0.diagnostics@) == published(outcome_view(outcome)),
        out.1 == (outcome is Ok),
{
    let mut diagnostics: Vec<Diagnostic> = Vec::new();
    let clean = match outcome {
        Ok(_) => true,
        Err(d) => {
            diagnostics.push(d);
            false
        },
    };
    assert(diagnostic_views(diagnostics@) =~= published(outcome_view(outcome)));
    (PublishDiagnostics { uri: uri.to_owned(), diagnostics }, clean)
}

/// The server's state: the documents that are open.
#[derive(Debug)]
pub struct Backend {
    pub documents: DocumentStore,
}

impl View for Backend {
    type V = Map<Seq<char>, Seq<char>>;

    open spec fn view(&self) -> Map<Seq<char>, Seq<char>> {
        self.documents@
    }
}

impl Backend {
    /// The store is well formed.
    pub open spec fn wf(&self) -> bool {
        self.documents.wf()
    }

    /// A server with no open document.
    pub fn new() -> (backend: Backend)
        ensures
            backend.wf(),
            backend@ == Map::<Seq<char>, Seq<char>>::empty(),
    {
        Backend { documents: DocumentStore::new() }
    }

    /// The server's capabilities and identity: documents are synchronised
    /// whole, completion is also triggered by an underscore, and completion
    /// items need no second request.
    pub fn initialize(&self) -> (result: InitializeResult)
        ensures
            result.capabilities.text_document_sync == TextDocumentSyncKind::Full,
            result.capabilities.completion_trigger_characters@.len() == 1,
            result.capabilities.completion_trigger_characters@[0]@ == "_"@,
            !result.capabilities.completion_resolve_provider,
            result.server_info.name@ == "TypedAnt LSP"@,
            result.server_info.version@ == "0.1.0"@,
    {
        let mut triggers: Vec<String> = Vec::new();
        triggers.push("_".to_owned());
        InitializeResult {
            capabilities: ServerCapabilities {
                text_document_sync: TextDocumentSyncKind::Full,
                completion_trigger_characters: triggers,
                completion_resolve_provider: false,
            },
            server_info: ServerInfo {
                name: "TypedAnt LSP".to_owned(),
                version: "0.1.0".to_owned(),
            },
        }
    }

    /// A document was opened: its text is stored, and is to be analysed.
    pub fn did_open(&mut self, uri: String, text: String) -> (request: AnalysisRequest)
        requires
            old(self).wf(),
        ensures
            final(self).wf(),
            final(self)@ == old(self)@.insert(uri@, text@),
            request.uri@ == uri@,
            request.text@ == text@,
    {
        let request = AnalysisRequest { uri: uri.clone(), text: text.clone() };
        self.documents.open(uri, text);
        request
    }

    /// A document was changed: the last of `changes` is its whole new text,
    /// which is stored and is to be analysed. With no change nothing
    /// happens.
    pub fn did_change(&mut self, uri: String, changes: Vec<String>) -> (request: Option<
        AnalysisRequest,
    >)
        requires
            old(self).wf(),
        ensures
            final(self).wf(),
            changes@.len() == 0 ==> request is None && final(self)@ == old(self)@,
            changes@.len() > 0 ==> request is Some && request->0.uri@ == uri@ && request->0.text@
                == changes@.last()@ && final(self)@ == old(self)@.insert(
                uri@,
                changes@.last()@,
            ),
    {
        let mut changes = changes;
        match changes.pop() {
            Some(text) => {
                let request = AnalysisRequest { uri: uri.clone(), text: text.clone() };
                self.documents.update(uri, text);
                Some(request)
            },
            None => None,
        }
    }

    /// A document was closed: it leaves the store, and an empty list of
    /// diagnostics clears what the editor showed for it.
    pub fn did_close(&mut self, uri: &str) -> (out: PublishDiagnostics)
        requires
            old(self).wf(),
        ensures
            final(self).wf(),
            final(self)@ == old(self)@.remove(uri@),
            out.uri@ == uri@,
            out.diagnostics@.len() == 0,
    {
        self.documents.close(uri);
        PublishDiagnostics { uri: uri.to_owned(), diagnostics: Vec::new() }
    }

    /// The completion candidates at `position` in the document `uri`, of
    /// the identifiers `names` that a pass over its current text left in
    /// the symbol table. A document that is not open has none.
    pub fn completion(&self, uri: &str, position: Position, names: &Vec<String>) -> (items:
        Option<Vec<CompletionItem>>)
        requires
            self.wf(),
        ensures
            match items {
                Some(list) => Some(labels(list@)) == completion_labels(
                    self@,
                    uri@,
                    position,
                    name_views(names@),
                ) && plain_variables(list@),
                None => completion_labels(self@, uri@, position, name_views(names@)) is None,
            },
    {
        match self.documents.get(uri) {
            Some(text) => Some(complete(text.as_str(), position, names)),
            None => None,
        }
    }

    /// The end of the session: there is nothing to tear down.
    pub fn shutdown(&self) {
    }
}

/// A completion request that follows the opening of a document is
/// answered, and with identifiers of the symbol table only, each of which
/// begins with the identifier left of the cursor.
pub proof fn lemma_open_then_complete(
    docs: Map<Seq<char>, Seq<char>>,
    uri: Seq<char>,
    text: Seq<char>,
    position: Position,
    names: Seq<Seq<char>>,
)
    ensures
        completion_labels(docs.insert(uri, text), uri, position, names) is Some,
        ({
            let prefix = word_before(text, position.line as nat, position.character as nat);
            let found = completion_labels(docs.insert(uri, text), uri, position, names)->0;
            &&& found == matching(names, prefix)
            &&& forall|i: int|
                0 <= i < found.len() ==> names.contains(#[trigger] found[i])
                    && prefix.is_prefix_of(found[i])
        }),
{
    lemma_matching_sound(
        names,
        word_before(text, position.line as nat, position.character as nat),
    );
}

/// A completion request that follows the closing of a document finds no
/// document, and is answered with nothing.
pub proof fn lemma_close_then_complete(
    docs: Map<Seq<char>, Seq<char>>,
    uri: Seq<char>,
    position: Position,
    names: Seq<Seq<char>>,
)
    ensures
        completion_labels(docs.remove(uri), uri, position, names) is None,
{
}

/// A pass in which the lexer, the parser and the type checker all pass
/// runs the three stages in that order and publishes no diagnostic.
pub proof fn lemma_clean_pass_publishes_nothing(text: Seq<char>, file: Seq<char>)
    ensures
        next_step(text, file, &StageEvent::Lexed { failed: false }) == StepView::Parse,
        next_step(text, file, &StageEvent::Parsed(None)) == StepView::Check,
        next_step(text, file, &StageEvent::Checked(None)) == StepView::Finish(None),
        published(None).len() == 0,
{
}

/// Whatever a stage reports, a pass publishes at most one diagnostic.
pub proof fn lemma_at_most_one_diagnostic(outcome: Option<DiagnosticView>)
    ensures
        published(outcome).len() <= 1,
        published(outcome).len() == 1 <==> outcome is Some,
{
}

} // verus!
