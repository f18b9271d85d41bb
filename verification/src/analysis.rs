//! From what the front end reports to what the editor shows: the stages run
//! in order, the first failure ends the pass, and that failure becomes the
//! one diagnostic of the document.

use crate::position::{calc_token_pos, token_end, token_start, Position, Token};
use crate::text::{clamp_u32, utf16_units};
use vstd::prelude::*;

verus! {

/// How grave a diagnostic is.
#[derive(Clone, Copy, Debug, PartialEq, Eq, Structural)]
pub enum DiagnosticSeverity {
    Error,
    Warning,
    Information,
    Hint,
}

/// A span of a document, from `start` up to `end`.
#[derive(Clone, Copy, Debug, PartialEq, Eq, Structural)]
pub struct Range {
    pub start: Position,
    pub end: Position,
}

/// A positioned report that the editor shows inline.
#[derive(Debug)]
pub struct Diagnostic {
    pub range: Range,
    pub severity: Option<DiagnosticSeverity>,
    pub message: String,
    pub source: Option<String>,
}

/// A diagnostic with its texts as sequences of characters.
pub struct DiagnosticView {
    pub range: Range,
    pub severity: Option<DiagnosticSeverity>,
    pub message: Seq<char>,
    pub source: Option<Seq<char>>,
}

impl View for Diagnostic {
    type V = DiagnosticView;

    open spec fn view(&self) -> DiagnosticView {
        DiagnosticView {
            range: self.range,
            severity: self.severity,
            message: self.message@,
            source: match self.source {
                Some(s) => Some(s@),
                None => None,
            },
        }
    }
}

/// A failure of the parser or of the type checker: the token at fault, the
/// textual form of the error's kind, and a message where the stage gave one.
#[derive(Debug)]
pub struct FrontEndError {
    pub token: Token,
    pub kind: String,
    pub message: Option<String>,
}

impl FrontEndError {
    /// The token's line and column count from one.
    pub open spec fn wf(&self) -> bool {
        self.token.wf()
    }

    /// The message to show: the stage's own, else the kind's textual form.
    pub open spec fn shown_message(&self) -> Seq<char> {
        match self.message {
            Some(m) => m@,
            None => self.kind@,
        }
    }
}

/// What a stage of the front end reported when it ended.
#[derive(Debug)]
pub enum StageEvent {
    /// The lexer ran; `failed` tells whether it met a lexical error.
    Lexed { failed: bool },
    /// The parser ran, and failed with the error given, if any.
    Parsed(Option<FrontEndError>),
    /// The type checker ran, and failed with the error given, if any.
    Checked(Option<FrontEndError>),
}

impl StageEvent {
    /// An error that the event carries is well formed.
    pub open spec fn wf(&self) -> bool {
        match self {
            StageEvent::Lexed { .. } => true,
            StageEvent::Parsed(e) => e is Some ==> e->0.wf(),
            StageEvent::Checked(e) => e is Some ==> e->0.wf(),
        }
    }
}

/// How a pass goes on after a stage.
#[derive(Debug)]
pub enum Step {
    /// Hand the tokens to the parser.
    Parse,
    /// Hand the syntax tree and the symbol table to the type checker.
    Check,
    /// The pass is over: the document is clean, or has this one diagnostic.
    Finish(Result<(), Diagnostic>),
}

/// A step with its diagnostic, if any, viewed.
pub enum StepView {
    Parse,
    Check,
    Finish(Option<DiagnosticView>),
}

impl View for Step {
    type V = StepView;

    open spec fn view(&self) -> StepView {
        match self {
            Step::Parse => StepView::Parse,
            Step::Check => StepView::Check,
            Step::Finish(Ok(_)) => StepView::Finish(None),
            Step::Finish(Err(d)) => StepView::Finish(Some(d@)),
        }
    }
}

/// The diagnostic of a lexical error: it has no place of its own and so
/// stands at the document's start.
pub open spec fn lexer_diagnostic(file: Seq<char>) -> DiagnosticView {
    DiagnosticView {
        range: Range {
            start: Position { line: 0, character: 0 },
            end: Position { line: 0, character: 0 },
        },
        severity: Some(DiagnosticSeverity::Error),
        message: "lexer error"@,
        source: Some(file),
    }
}

/// The diagnostic of a parse or type error: it spans the token at fault, on
/// the token's line counted from zero, in UTF-16 columns. Each number
/// saturates at `u32::MAX`.
pub open spec fn token_diagnostic(
    text: Seq<char>,
    file: Seq<char>,
    err: &FrontEndError,
) -> DiagnosticView
    recommends
        err.wf(),
{
    let line = clamp_u32((err.token.line - 1) as nat);
    let start = clamp_u32(token_start(text, err.token.line as nat, err.token.column as nat));
    let end = clamp_u32(
        token_end(text, err.token.line as nat, err.token.column as nat, err.token.value@),
    );
    DiagnosticView {
        range: Range {
            start: Position { line, character: start },
            end: Position { line, character: end },
        },
        severity: Some(DiagnosticSeverity::Error),
        message: err.shown_message(),
        source: Some(file),
    }
}

/// What follows a stage's report: the next stage where it passed, and the
/// end of the pass, with the failure's diagnostic, where it did not. After
/// the type checker has passed the document is clean.
pub open spec fn next_step(text: Seq<char>, file: Seq<char>, event: &StageEvent) -> StepView
    recommends
        event.wf(),
{
    match event {
        StageEvent::Lexed { failed } => if *failed {
            StepView::Finish(Some(lexer_diagnostic(file)))
        } else {
            StepView::Parse
        },
        StageEvent::Parsed(Some(e)) => StepView::Finish(Some(token_diagnostic(text, file, e))),
        StageEvent::Parsed(None) => StepView::Check,
        StageEvent::Checked(Some(e)) => StepView::Finish(Some(token_diagnostic(text, file, e))),
        StageEvent::Checked(None) => StepView::Finish(None),
    }
}

/// The diagnostic of a lexical error in the document labelled `file`.
pub fn lexer_error(file: &str) -> (d: Diagnostic)
    ensures
        d@ == lexer_diagnostic(file@),
{
    Diagnostic {
        range: Range {
            start: Position { line: 0, character: 0 },
            end: Position { line: 0, character: 0 },
        },
        severity: Some(DiagnosticSeverity::Error),
        message: "lexer error".to_owned(),
        source: Some(file.to_owned()),
    }
}

/// The diagnostic of the parse or type error `err` in `text`.
pub fn token_error(text: &str, file: &str, err: &FrontEndError) -> (d: Diagnostic)
    requires
        err.wf(),
    ensures
        d@ == token_diagnostic(text@, file@, err),
{
    let line0: usize = err.token.line - 1;
    let line: u32 = if line0 > 0xffff_ffff {
        u32::MAX
    } else {
        line0 as u32
    };
    let (start, end) = calc_token_pos(text, &err.token);
    let message = match &err.message {
        Some(m) => m.clone(),
        None => err.kind.clone(),
    };
    Diagnostic {
        range: Range {
            start: Position { line, character: start },
            end: Position { line, character: end },
        },
        severity: Some(DiagnosticSeverity::Error),
        message,
        source: Some(file.to_owned()),
    }
}

/// Decides how the analysis of `text` goes on after a stage of the front
/// end has reported. A pass starts with the lexer; the first stage that
/// fails ends it, and no later stage runs.
pub fn analyze(text: &str, file: &str, event: &StageEvent) -> (step: Step)
    requires
        event.wf(),
    ensures
        step@ == next_step(text@, file@, event),
{
    match event {
        StageEvent::Lexed { failed } => {
            if *failed {
                Step::Finish(Err(lexer_error(file)))
            } else {
                Step::Parse
            }
        },
        StageEvent::Parsed(Some(e)) => Step::Finish(Err(token_error(text, file, e))),
        StageEvent::Parsed(None) => Step::Check,
        StageEvent::Checked(Some(e)) => Step::Finish(Err(token_error(text, file, e))),
        StageEvent::Checked(None) => Step::Finish(Ok(())),
    }
}

/// The label under which a document's diagnostics are filed: its path in
/// the file system where it has one, else its URI as text.
pub fn source_label(file_path: Option<String>, uri: &str) -> (label: String)
    ensures
        label@ == (match file_path {
            Some(p) => p@,
            None => uri@,
        }),
{
    match file_path {
        Some(p) => p,
        None => uri.to_owned(),
    }
}

/// The diagnostic of a parse or type error stands on one line, the token's
/// own counted from zero, and is an error; where its columns fit in a
/// `u32`, it is as wide as the token's text.
pub proof fn lemma_token_diagnostic_span(text: Seq<char>, file: Seq<char>, err: &FrontEndError)
    requires
        err.wf(),
    ensures
        ({
            let d = token_diagnostic(text, file, err);
            &&& d.range.start.line == d.range.end.line
            &&& d.range.start.line == clamp_u32((err.token.line - 1) as nat)
            &&& d.severity == Some(DiagnosticSeverity::Error)
            &&& token_end(
                text,
                err.token.line as nat,
                err.token.column as nat,
                err.token.value@,
            ) <= u32::MAX ==> d.range.end.character - d.range.start.character == utf16_units(
                err.token.value@,
            )
        }),
{
}

/// Two passes over one text, under one label, that get the same report end
/// in the same step, and so in the same diagnostic.
pub proof fn lemma_analysis_repeatable(
    text: Seq<char>,
    file: Seq<char>,
    event: &StageEvent,
    first: Step,
    second: Step,
)
    requires
        event.wf(),
        first@ == next_step(text, file, event),
        second@ == next_step(text, file, event),
    ensures
        first@ == second@,
{
}

/// A pass ends with at most one diagnostic, and a diagnostic is always an
/// error that names the document's label.
pub proof fn lemma_diagnostic_is_error(text: Seq<char>, file: Seq<char>, event: &StageEvent)
    requires
        event.wf(),
    ensures
        match next_step(text, file, event) {
            StepView::Finish(Some(d)) => d.severity == Some(DiagnosticSeverity::Error)
                && d.source == Some(file),
            _ => true,
        },
{
}

} // verus!
