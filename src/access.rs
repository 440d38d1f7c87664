//! Access control around extraction: the order of the policy and
//! file-system checks, the size and output ceilings, and the result record.
//!
//! A request advances by a step function. Its stage names the next outside
//! action (ask the policy, resolve the path, fetch metadata, read, extract);
//! the caller performs it and hands back what came of it as an event.
use vstd::prelude::*;
use crate::archive::ExtractError;
use crate::text::{is_blank, decimal, push_decimal, push_str_chars, string_from_chars, to_chars, chars_blank};

verus! {

/// Largest package accepted, in bytes (50 MiB).
pub const MAX_PPTX_BYTES: u64 = 50 * 1024 * 1024;

/// Characters returned when the caller names no limit.
pub const DEFAULT_MAX_CHARS: usize = 50_000;

/// Ceiling on the characters returned, whatever the caller asks for.
pub const MAX_OUTPUT_CHARS: usize = 200_000;

/// What a request returns.
pub struct ToolResult {
    pub success: bool,
    pub output: String,
    pub error: Option<String>,
}

impl ToolResult {
    /// A success carries output and no error; a failure carries an error and
    /// no output.
    pub open spec fn well_formed(&self) -> bool {
        (self.success && self.error is None && self.output@.len() > 0) || (!self.success
            && self.output@.len() == 0 && self.error is Some)
    }
}

/// Why a request failed.
pub enum GateError {
    RateLimited,
    PathDenied(String),
    BudgetExhausted,
    PathResolution(String),
    ResolvedPathDenied(String),
    Metadata(String),
    FileTooLarge(u64),
    ReadFailed(String),
    Extraction(ExtractError),
    TaskFailed(String),
}

pub open spec fn extract_error_text(e: ExtractError) -> Seq<char> {
    match e {
        ExtractError::InvalidArchive(m) => m@,
        ExtractError::EntryRead(m) => m@,
    }
}

/// The message reported for `e`.
pub open spec fn error_text(e: GateError) -> Seq<char> {
    match e {
        GateError::RateLimited => "Rate limit exceeded: too many actions in the last hour"@,
        GateError::PathDenied(p) => "Path not allowed by security policy: "@ + p@,
        GateError::BudgetExhausted => "Rate limit exceeded: action budget exhausted"@,
        GateError::PathResolution(m) => "Failed to resolve file path: "@ + m@,
        GateError::ResolvedPathDenied(m) => m@,
        GateError::Metadata(m) => "Failed to read file metadata: "@ + m@,
        GateError::FileTooLarge(n) => "PPTX too large: "@ + decimal(n as nat) + " bytes (limit: "@
            + decimal(MAX_PPTX_BYTES as nat) + " bytes)"@,
        GateError::ReadFailed(m) => "Failed to read PPTX file: "@ + m@,
        GateError::Extraction(x) => "PPTX extraction failed: "@ + extract_error_text(x),
        GateError::TaskFailed(m) => "PPTX extraction task panicked: "@ + m@,
    }
}

impl GateError {
    /// The message reported for this error.
    pub fn message(&self) -> (r: String)
        ensures
            r@ == error_text(*self),
    {
        let mut out: Vec<char> = Vec::new();
        match self {
            GateError::RateLimited => {
                push_str_chars(&mut out, "Rate limit exceeded: too many actions in the last hour");
            },
            GateError::PathDenied(p) => {
                push_str_chars(&mut out, "Path not allowed by security policy: ");
                push_str_chars(&mut out, p.as_str());
            },
            GateError::BudgetExhausted => {
                push_str_chars(&mut out, "Rate limit exceeded: action budget exhausted");
            },
            GateError::PathResolution(m) => {
                push_str_chars(&mut out, "Failed to resolve file path: ");
                push_str_chars(&mut out, m.as_str());
            },
            GateError::ResolvedPathDenied(m) => {
                push_str_chars(&mut out, m.as_str());
            },
            GateError::Metadata(m) => {
                push_str_chars(&mut out, "Failed to read file metadata: ");
                push_str_chars(&mut out, m.as_str());
            },
            GateError::FileTooLarge(n) => {
                push_str_chars(&mut out, "PPTX too large: ");
                push_decimal(&mut out, *n);
                push_str_chars(&mut out, " bytes (limit: ");
                push_decimal(&mut out, MAX_PPTX_BYTES);
                push_str_chars(&mut out, " bytes)");
            },
            GateError::ReadFailed(m) => {
                push_str_chars(&mut out, "Failed to read PPTX file: ");
                push_str_chars(&mut out, m.as_str());
            },
            GateError::Extraction(x) => {
                push_str_chars(&mut out, "PPTX extraction failed: ");
                match x {
                    ExtractError::InvalidArchive(m) => push_str_chars(&mut out, m.as_str()),
                    ExtractError::EntryRead(m) => push_str_chars(&mut out, m.as_str()),
                }
            },
            GateError::TaskFailed(m) => {
                push_str_chars(&mut out, "PPTX extraction task panicked: ");
                push_str_chars(&mut out, m.as_str());
            },
        }
        string_from_chars(&out)
    }
}

/// The failed result for `e`.
pub open spec fn is_failure(r: ToolResult, e: GateError) -> bool {
    &&& !r.success
    &&& r.output@.len() == 0
    &&& r.error matches Some(m) && m@ == error_text(e)
}

pub fn failure(e: &GateError) -> (r: ToolResult)
    ensures
        is_failure(r, *e),
{
    ToolResult { success: false, output: String::new(), error: Some(e.message()) }
}

/// The character limit in force: the requested one, capped at
/// `MAX_OUTPUT_CHARS`, or `DEFAULT_MAX_CHARS` when none was requested.
pub open spec fn effective_limit(requested: Option<u64>) -> nat {
    match requested {
        None => DEFAULT_MAX_CHARS as nat,
        Some(n) => if n > MAX_OUTPUT_CHARS {
            MAX_OUTPUT_CHARS as nat
        } else {
            n as nat
        },
    }
}

pub fn effective_max_chars(requested: Option<u64>) -> (r: usize)
    ensures
        r as nat == effective_limit(requested),
        r <= MAX_OUTPUT_CHARS,
{
    match requested {
        None => DEFAULT_MAX_CHARS,
        Some(n) => if n > MAX_OUTPUT_CHARS as u64 {
            MAX_OUTPUT_CHARS
        } else {
            n as usize
        },
    }
}

pub open spec fn truncation_marker() -> Seq<char> {
    "\n\n[... truncated, use max_chars to read more ...]"@
}

/// `text` cut to its first `max` characters and marked, when it is longer.
pub open spec fn truncated(text: Seq<char>, max: nat) -> Seq<char> {
    if text.len() > max {
        text.take(max as int) + truncation_marker()
    } else {
        text
    }
}

pub fn truncate_output(text: &str, max_chars: usize) -> (r: String)
    ensures
        r@ == truncated(text@, max_chars as nat),
{
    let chars = to_chars(text);
    if chars.len() <= max_chars {
        return text.to_owned();
    }
    let mut out: Vec<char> = Vec::new();
    let mut i: usize = 0;
    while i < max_chars
        invariant
            i <= max_chars < chars.len(),
            chars@ == text@,
            out@ == chars@.take(i as int),
        decreases max_chars - i,
    {
        out.push(chars[i]);
        i = i + 1;
        assert(out@ =~= chars@.take(i as int));
    }
    push_str_chars(&mut out, "\n\n[... truncated, use max_chars to read more ...]");
    string_from_chars(&out)
}

/// Text longer than the limit is cut to exactly the limit, followed by the
/// truncation marker; text within the limit is returned unchanged.
pub proof fn lemma_truncation(text: Seq<char>, max: nat)
    ensures
        text.len() > max ==> truncated(text, max).len() == max + truncation_marker().len()
            && truncated(text, max).take(max as int) == text.take(max as int) && truncated(
            text,
            max,
        ).skip(max as int) == truncation_marker(),
        text.len() <= max ==> truncated(text, max) == text,
{
    if text.len() > max {
        let t = truncated(text, max);
        assert(t.take(max as int) =~= text.take(max as int));
        assert(t.skip(max as int) =~= truncation_marker());
    }
}

pub open spec fn no_text_notice() -> Seq<char> {
    "PPTX contains no extractable text (may be image-only)"@
}

/// The successful result for extracted `text`.
pub open spec fn finished(r: ToolResult, text: Seq<char>, max: nat) -> bool {
    &&& r.success
    &&& r.error is None
    &&& r.output@ == if is_blank(text) {
        no_text_notice()
    } else {
        truncated(text, max)
    }
}

/// The result for extracted `text`: a notice when it is blank, else the text
/// within the limit.
pub fn finish_text(text: &str, max_chars: usize) -> (r: ToolResult)
    ensures
        finished(r, text@, max_chars as nat),
        r.well_formed(),
{
    proof {
        reveal_strlit("PPTX contains no extractable text (may be image-only)");
        reveal_strlit("\n\n[... truncated, use max_chars to read more ...]");
        if !is_blank(text@) {
            assert(text@.len() > 0);
            let t = truncated(text@, max_chars as nat);
            if text@.len() > max_chars {
                assert(t.len() == max_chars + truncation_marker().len());
            }
        }
    }
    let chars = to_chars(text);
    if chars_blank(&chars) {
        ToolResult {
            success: true,
            output: "PPTX contains no extractable text (may be image-only)".to_owned(),
            error: None,
        }
    } else {
        ToolResult { success: true, output: truncate_output(text, max_chars), error: None }
    }
}


/// The next outside action of a request, or its result.
pub enum Stage {
    /// Ask the policy whether too many actions happened lately.
    CheckRateLimit,
    /// Ask the policy whether the requested path is allowed.
    CheckPath,
    /// Charge one action to the policy's budget.
    RecordAction,
    /// Resolve the path under the workspace, following links.
    Resolve,
    /// Ask the policy whether the resolved path is allowed.
    CheckResolved,
    /// Fetch the file's size, without reading it.
    FetchMetadata,
    /// Read the file's bytes.
    ReadFile,
    /// Extract the text from the bytes, away from the I/O scheduler.
    Extract,
    /// The request is over.
    Done(ToolResult),
}

/// What came of a stage's action.
pub enum Event {
    RateLimited(bool),
    PathAllowed(bool),
    ActionRecorded(bool),
    /// The canonical path, or why resolution failed.
    Resolved(Result<String, String>),
    /// Allowed, or the policy's violation message.
    ResolvedAllowed(Result<(), String>),
    /// The file's size in bytes, or why it could not be had.
    Metadata(Result<u64, String>),
    /// The file was read, or why it could not be.
    FileRead(Result<(), String>),
    /// The extracted text or the extraction's error; `Err` when the
    /// extraction task itself failed.
    Extracted(Result<Result<String, ExtractError>, String>),
}

/// One request in progress.
pub struct Extraction {
    pub path: String,
    pub max_chars: usize,
    pub stage: Stage,
}

impl Extraction {
    /// Only results that are well formed are ever reached.
    pub open spec fn wf(&self) -> bool {
        self.stage matches Stage::Done(r) ==> r.well_formed()
    }

    /// Whether the request ended in the failure `e`.
    pub open spec fn failed_with(&self, e: GateError) -> bool {
        self.stage matches Stage::Done(r) && is_failure(r, e)
    }

    /// Advances the request by what came of its current stage's action. An
    /// event that does not answer the current stage changes nothing.
    pub fn step(&mut self, ev: Event)
        requires
            old(self).wf(),
        ensures
            final(self).wf(),
            final(self).path@ == old(self).path@,
            final(self).max_chars == old(self).max_chars,
            match (old(self).stage, ev) {
                (Stage::CheckRateLimit, Event::RateLimited(limited)) => if limited {
                    final(self).failed_with(GateError::RateLimited)
                } else {
                    final(self).stage is CheckPath
                },
                (Stage::CheckPath, Event::PathAllowed(allowed)) => if allowed {
                    final(self).stage is RecordAction
                } else {
                    final(self).failed_with(GateError::PathDenied(old(self).path))
                },
                (Stage::RecordAction, Event::ActionRecorded(recorded)) => if recorded {
                    final(self).stage is Resolve
                } else {
                    final(self).failed_with(GateError::BudgetExhausted)
                },
                (Stage::Resolve, Event::Resolved(res)) => match res {
                    Ok(_) => final(self).stage is CheckResolved,
                    Err(m) => final(self).failed_with(GateError::PathResolution(m)),
                },
                (Stage::CheckResolved, Event::ResolvedAllowed(res)) => match res {
                    Ok(_) => final(self).stage is FetchMetadata,
                    Err(m) => final(self).failed_with(GateError::ResolvedPathDenied(m)),
                },
                (Stage::FetchMetadata, Event::Metadata(res)) => match res {
                    Ok(n) => if n > MAX_PPTX_BYTES {
                        final(self).failed_with(GateError::FileTooLarge(n))
                    } else {
                        final(self).stage is ReadFile
                    },
                    Err(m) => final(self).failed_with(GateError::Metadata(m)),
                },
                (Stage::ReadFile, Event::FileRead(res)) => match res {
                    Ok(_) => final(self).stage is Extract,
                    Err(m) => final(self).failed_with(GateError::ReadFailed(m)),
                },
                (Stage::Extract, Event::Extracted(res)) => match res {
                    Ok(Ok(text)) => (final(self).stage matches Stage::Done(r) && finished(
                        r,
                        text@,
                        old(self).max_chars as nat,
                    )),
                    Ok(Err(x)) => final(self).failed_with(GateError::Extraction(x)),
                    Err(m) => final(self).failed_with(GateError::TaskFailed(m)),
                },
                _ => final(self).stage == old(self).stage,
            },
    {
        let next: Option<Stage> = match (&self.stage, ev) {
            (Stage::CheckRateLimit, Event::RateLimited(limited)) => if limited {
                Some(Stage::Done(failure(&GateError::RateLimited)))
            } else {
                Some(Stage::CheckPath)
            },
            (Stage::CheckPath, Event::PathAllowed(allowed)) => if allowed {
                Some(Stage::RecordAction)
            } else {
                let e = GateError::PathDenied(self.path.clone());
                Some(Stage::Done(failure(&e)))
            },
            (Stage::RecordAction, Event::ActionRecorded(recorded)) => if recorded {
                Some(Stage::Resolve)
            } else {
                Some(Stage::Done(failure(&GateError::BudgetExhausted)))
            },
            (Stage::Resolve, Event::Resolved(res)) => match res {
                Ok(_) => Some(Stage::CheckResolved),
                Err(m) => Some(Stage::Done(failure(&GateError::PathResolution(m)))),
            },
            (Stage::CheckResolved, Event::ResolvedAllowed(res)) => match res {
                Ok(_) => Some(Stage::FetchMetadata),
                Err(m) => Some(Stage::Done(failure(&GateError::ResolvedPathDenied(m)))),
            },
            (Stage::FetchMetadata, Event::Metadata(res)) => match res {
                Ok(n) => if n > MAX_PPTX_BYTES {
                    Some(Stage::Done(failure(&GateError::FileTooLarge(n))))
                } else {
                    Some(Stage::ReadFile)
                },
                Err(m) => Some(Stage::Done(failure(&GateError::Metadata(m)))),
            },
            (Stage::ReadFile, Event::FileRead(res)) => match res {
                Ok(_) => Some(Stage::Extract),
                Err(m) => Some(Stage::Done(failure(&GateError::ReadFailed(m)))),
            },
            (Stage::Extract, Event::Extracted(res)) => match res {
                Ok(Ok(text)) => Some(Stage::Done(finish_text(text.as_str(), self.max_chars))),
                Ok(Err(x)) => Some(Stage::Done(failure(&GateError::Extraction(x)))),
                Err(m) => Some(Stage::Done(failure(&GateError::TaskFailed(m)))),
            },
            _ => None,
        };
        if let Some(st) = next {
            self.stage = st;
        }
    }

    /// The result, once the request is over.
    pub fn result(&self) -> (r: Option<&ToolResult>)
        ensures
            match self.stage {
                Stage::Done(t) => r == Some(&t),
                _ => r is None,
            },
    {
        match &self.stage {
            Stage::Done(t) => Some(t),
            _ => None,
        }
    }
}

/// Every request ends either in a success with output and without an error,
/// or in a failure with an error and no output, whatever the events were.
pub proof fn lemma_result_exclusive(x: Extraction)
    requires
        x.wf(),
    ensures
        x.stage matches Stage::Done(r) ==> (r.success <==> r.error is None) && (r.success
            ==> r.output@.len() > 0) && (!r.success ==> r.output@.len() == 0),
{
}

/// Extracts the text of PowerPoint files in a workspace.
pub struct PptxReadTool {
    pub workspace_dir: String,
}

impl PptxReadTool {
    pub fn new(workspace_dir: String) -> (r: Self)
        ensures
            r.workspace_dir@ == workspace_dir@,
    {
        PptxReadTool { workspace_dir }
    }

    pub fn name(&self) -> (r: &'static str)
        ensures
            r@ == "pptx_read"@,
    {
        "pptx_read"
    }

    pub fn description(&self) -> (r: &'static str)
        ensures
            r@ == "Extract plain text from a PowerPoint (PPTX) file in the workspace. Returns all readable text from all slides, separated by slide markers. Useful for analyzing presentations without manual copy-paste."@,
    {
        "Extract plain text from a PowerPoint (PPTX) file in the workspace. Returns all readable text from all slides, separated by slide markers. Useful for analyzing presentations without manual copy-paste."
    }

    /// Starts a request for `path` with the character limit `max_chars`
    /// asks for.
    pub fn begin(&self, path: String, max_chars: Option<u64>) -> (r: Extraction)
        ensures
            r.wf(),
            r.path@ == path@,
            r.max_chars as nat == effective_limit(max_chars),
            r.stage is CheckRateLimit,
    {
        Extraction { path, max_chars: effective_max_chars(max_chars), stage: Stage::CheckRateLimit }
    }
}

} // verus!
