use pptx_read::archive::ExtractError;
use pptx_read::access::{
    effective_max_chars, finish_text, truncate_output, Event, Extraction, GateError,
    PptxReadTool, Stage, ToolResult, DEFAULT_MAX_CHARS, MAX_OUTPUT_CHARS, MAX_PPTX_BYTES,
};

const MARKER: &str = "\n\n[... truncated, use max_chars to read more ...]";
const NOTICE: &str = "PPTX contains no extractable text (may be image-only)";

fn start(path: &str, max: Option<u64>) -> Extraction {
    PptxReadTool::new("/ws".to_string()).begin(path.to_string(), max)
}

fn done(x: &Extraction) -> &ToolResult {
    x.result().expect("request is over")
}

fn well_formed(r: &ToolResult) -> bool {
    (r.success && r.error.is_none()) || (!r.success && r.output.is_empty() && r.error.is_some())
}

fn pass_to_metadata(x: &mut Extraction) {
    x.step(Event::RateLimited(false));
    x.step(Event::PathAllowed(true));
    x.step(Event::ActionRecorded(true));
    x.step(Event::Resolved(Ok("/ws/deck.pptx".to_string())));
    x.step(Event::ResolvedAllowed(Ok(())));
    assert!(matches!(x.stage, Stage::FetchMetadata));
}

#[test]
fn limit_defaults_and_is_clamped() {
    assert_eq!(effective_max_chars(None), DEFAULT_MAX_CHARS);
    assert_eq!(effective_max_chars(Some(999_999_999)), 200_000);
    assert_eq!(effective_max_chars(Some(u64::MAX)), MAX_OUTPUT_CHARS);
    assert_eq!(effective_max_chars(Some(200_000)), 200_000);
    assert_eq!(effective_max_chars(Some(10)), 10);
    assert_eq!(start("d.pptx", Some(999_999_999)).max_chars, 200_000);
    assert_eq!(start("d.pptx", None).max_chars, 50_000);
}

#[test]
fn truncation_cuts_to_exact_characters() {
    assert_eq!(truncate_output("abcdef", 3), format!("abc{MARKER}"));
    assert_eq!(truncate_output("héllo", 2), format!("hé{MARKER}"));
    assert_eq!(truncate_output("abc", 3), "abc");
    assert_eq!(truncate_output("", 0), "");
    let long = "x".repeat(10);
    let out = truncate_output(&long, 4);
    assert_eq!(out.chars().count(), 4 + MARKER.chars().count());
}

#[test]
fn blank_text_is_a_success_with_a_notice() {
    let r = finish_text(" \n\t ", 10);
    assert!(r.success);
    assert_eq!(r.output, NOTICE);
    assert!(r.error.is_none());
    let r = finish_text("", 10);
    assert_eq!(r.output, NOTICE);
}

#[test]
fn full_request_succeeds() {
    let mut x = start("deck.pptx", Some(15));
    pass_to_metadata(&mut x);
    x.step(Event::Metadata(Ok(1024)));
    assert!(matches!(x.stage, Stage::ReadFile));
    x.step(Event::FileRead(Ok(())));
    assert!(matches!(x.stage, Stage::Extract));
    x.step(Event::Extracted(Ok(Ok("--- Slide 1 ---\nHello World \n\n".to_string()))));
    let r = done(&x);
    assert!(r.success);
    assert_eq!(r.output, format!("--- Slide 1 ---{MARKER}"));
    assert!(well_formed(r));
}

#[test]
fn package_without_text_gives_the_notice() {
    let mut x = start("deck.pptx", None);
    pass_to_metadata(&mut x);
    x.step(Event::Metadata(Ok(10)));
    x.step(Event::FileRead(Ok(())));
    x.step(Event::Extracted(Ok(Ok(String::new()))));
    let r = done(&x);
    assert!(r.success);
    assert_eq!(r.output, NOTICE);
    assert!(r.error.is_none());
}

#[test]
fn rate_limit_stops_first() {
    let mut x = start("deck.pptx", None);
    x.step(Event::RateLimited(true));
    let r = done(&x);
    assert!(!r.success);
    assert_eq!(r.error.as_deref(), Some("Rate limit exceeded: too many actions in the last hour"));
    assert!(well_formed(r));
}

#[test]
fn denied_path_names_the_path() {
    let mut x = start("../secret.pptx", None);
    x.step(Event::RateLimited(false));
    x.step(Event::PathAllowed(false));
    let r = done(&x);
    assert_eq!(
        r.error.as_deref(),
        Some("Path not allowed by security policy: ../secret.pptx")
    );
    assert!(well_formed(r));
}

#[test]
fn exhausted_budget_fails() {
    let mut x = start("deck.pptx", None);
    x.step(Event::RateLimited(false));
    x.step(Event::PathAllowed(true));
    x.step(Event::ActionRecorded(false));
    assert_eq!(
        done(&x).error.as_deref(),
        Some("Rate limit exceeded: action budget exhausted")
    );
}

#[test]
fn unresolvable_path_fails() {
    let mut x = start("missing.pptx", None);
    x.step(Event::RateLimited(false));
    x.step(Event::PathAllowed(true));
    x.step(Event::ActionRecorded(true));
    x.step(Event::Resolved(Err("No such file or directory".to_string())));
    assert_eq!(
        done(&x).error.as_deref(),
        Some("Failed to resolve file path: No such file or directory")
    );
}

#[test]
fn resolved_path_outside_workspace_is_denied() {
    let mut x = start("link.pptx", None);
    x.step(Event::RateLimited(false));
    x.step(Event::PathAllowed(true));
    x.step(Event::ActionRecorded(true));
    x.step(Event::Resolved(Ok("/etc/outside.pptx".to_string())));
    assert!(matches!(x.stage, Stage::CheckResolved));
    x.step(Event::ResolvedAllowed(Err(
        "Resolved path escapes workspace: /etc/outside.pptx".to_string(),
    )));
    let r = done(&x);
    assert!(!r.success);
    assert_eq!(r.error.as_deref(), Some("Resolved path escapes workspace: /etc/outside.pptx"));
    assert!(r.output.is_empty());
}

#[test]
fn oversized_file_is_refused_before_reading() {
    let mut x = start("big.pptx", None);
    pass_to_metadata(&mut x);
    x.step(Event::Metadata(Ok(60 * 1024 * 1024)));
    let r = done(&x);
    assert!(!r.success);
    assert_eq!(
        r.error.as_deref(),
        Some("PPTX too large: 62914560 bytes (limit: 52428800 bytes)")
    );
    // Over: a read event no longer changes anything.
    x.step(Event::FileRead(Ok(())));
    assert!(!done(&x).success);
}

#[test]
fn size_at_the_limit_is_accepted() {
    let mut x = start("deck.pptx", None);
    pass_to_metadata(&mut x);
    x.step(Event::Metadata(Ok(MAX_PPTX_BYTES)));
    assert!(matches!(x.stage, Stage::ReadFile));
}

#[test]
fn metadata_read_and_task_failures() {
    let mut x = start("deck.pptx", None);
    pass_to_metadata(&mut x);
    x.step(Event::Metadata(Err("denied".to_string())));
    assert_eq!(done(&x).error.as_deref(), Some("Failed to read file metadata: denied"));

    let mut x = start("deck.pptx", None);
    pass_to_metadata(&mut x);
    x.step(Event::Metadata(Ok(5)));
    x.step(Event::FileRead(Err("io".to_string())));
    assert_eq!(done(&x).error.as_deref(), Some("Failed to read PPTX file: io"));

    let mut x = start("deck.pptx", None);
    pass_to_metadata(&mut x);
    x.step(Event::Metadata(Ok(5)));
    x.step(Event::FileRead(Ok(())));
    x.step(Event::Extracted(Err("boom".to_string())));
    assert_eq!(done(&x).error.as_deref(), Some("PPTX extraction task panicked: boom"));
}

#[test]
fn extraction_errors_are_reported() {
    let mut x = start("deck.pptx", None);
    pass_to_metadata(&mut x);
    x.step(Event::Metadata(Ok(5)));
    x.step(Event::FileRead(Ok(())));
    x.step(Event::Extracted(Ok(Err(ExtractError::InvalidArchive("bad zip".to_string())))));
    let r = done(&x);
    assert_eq!(r.error.as_deref(), Some("PPTX extraction failed: bad zip"));
    assert!(well_formed(r));
}

#[test]
fn events_for_another_stage_change_nothing() {
    let mut x = start("deck.pptx", None);
    x.step(Event::Metadata(Ok(1)));
    assert!(matches!(x.stage, Stage::CheckRateLimit));
    x.step(Event::PathAllowed(false));
    assert!(matches!(x.stage, Stage::CheckRateLimit));
}

#[test]
fn error_messages() {
    assert_eq!(GateError::FileTooLarge(0).message(), "PPTX too large: 0 bytes (limit: 52428800 bytes)");
    assert_eq!(
        GateError::Extraction(ExtractError::EntryRead("gone".to_string())).message(),
        "PPTX extraction failed: gone"
    );
    assert_eq!(GateError::ResolvedPathDenied("m".to_string()).message(), "m");
}

#[test]
fn tool_identity() {
    let t = PptxReadTool::new("/ws".to_string());
    assert_eq!(t.workspace_dir, "/ws");
    assert_eq!(t.name(), "pptx_read");
    assert!(t.description().starts_with("Extract plain text"));
}

#[test]
fn successes_always_carry_output() {
    let r = finish_text("x", 0);
    assert!(r.success);
    assert_eq!(r.output, MARKER);
    assert!(well_formed(&r) && !r.output.is_empty());
}
