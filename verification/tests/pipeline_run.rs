use pulse::blocklist::Blocklist;
use pulse::pipeline::check_file_count;
use pulse::pipeline::JobError;
use pulse::pipeline::JobRun;
use pulse::pipeline::LineOutcome;

#[test]
fn zero_files_is_a_fatal_error() {
    assert!(matches!(check_file_count(0), Err(JobError::NoInputFiles)));
}

#[test]
fn found_files_pass_the_check() {
    assert!(matches!(check_file_count(1), Ok(1)));
    assert!(matches!(check_file_count(42), Ok(42)));
}

#[test]
fn well_formed_line_yields_a_document() {
    let bl = Blocklist::new();
    let mut run = JobRun::new();
    let line = r#"{"url":"http://a.example/x","title":"t","content_text":"hello","meta_content":"m","language":"de"}"#;
    match run.process_line(line, &bl) {
        LineOutcome::Document { doc, commit_due } => {
            assert_eq!(doc.url, "http://a.example/x");
            assert_eq!(doc.title, "t");
            assert_eq!(doc.content, "hello");
            assert_eq!(doc.preview, "hello");
            assert_eq!(doc.meta_tags, "m");
            assert_eq!(doc.language, "de");
            assert!(!doc.nsfw);
            assert!(!commit_due);
        }
        LineOutcome::Rejected => panic!("well-formed line was rejected"),
    }
    assert_eq!(run.processed, 1);
    assert_eq!(run.skipped, 0);
}

#[test]
fn bad_line_is_skipped_and_run_continues() {
    let bl = Blocklist::new();
    let mut run = JobRun::new();
    let good = r#"{"url":"http://a.example/x","content_text":"hello"}"#;
    let bad = r#"{"url": not json at all"#;
    assert!(matches!(run.process_line(good, &bl), LineOutcome::Document { .. }));
    assert!(matches!(run.process_line(bad, &bl), LineOutcome::Rejected));
    assert_eq!(run.processed, 1);
    assert_eq!(run.skipped, 1);
}

#[test]
fn missing_or_empty_url_is_rejected() {
    let bl = Blocklist::new();
    let mut run = JobRun::new();
    assert!(matches!(
        run.process_line(r#"{"title":"no url"}"#, &bl),
        LineOutcome::Rejected
    ));
    assert!(matches!(
        run.process_line(r#"{"url":""}"#, &bl),
        LineOutcome::Rejected
    ));
    assert!(matches!(run.process_line(r#"[1,2,3]"#, &bl), LineOutcome::Rejected));
    assert_eq!(run.processed, 0);
    assert_eq!(run.skipped, 3);
}

#[test]
fn unknown_json_fields_are_ignored() {
    let bl = Blocklist::new();
    let mut run = JobRun::new();
    let line = r#"{"url":"http://a.example/x","extra":7,"nested":{"a":1}}"#;
    assert!(matches!(run.process_line(line, &bl), LineOutcome::Document { .. }));
    assert_eq!(run.processed, 1);
}

#[test]
fn commits_every_thousand_and_once_at_end() {
    let bl = Blocklist::new();
    let mut run = JobRun::new();
    let mut commits: u64 = 0;
    for i in 0..2500u64 {
        let line = format!(r#"{{"url":"http://site{}.example/x"}}"#, i);
        match run.process_line(&line, &bl) {
            LineOutcome::Document { commit_due, .. } => {
                if commit_due {
                    commits += 1;
                }
            }
            LineOutcome::Rejected => panic!("well-formed line was rejected"),
        }
    }
    // The unconditional final commit after the last record.
    commits += 1;
    assert_eq!(run.processed, 2500);
    assert_eq!(run.skipped, 0);
    assert_eq!(commits, 3);
}

#[test]
fn nsfw_classification_flows_into_the_document() {
    let bl = Blocklist::from_text("bad.example");
    let mut run = JobRun::new();
    let flagged = r#"{"url":"http://www.bad.example/page"}"#;
    let clean = r#"{"url":"http://good.example/page"}"#;
    match run.process_line(flagged, &bl) {
        LineOutcome::Document { doc, .. } => assert!(doc.nsfw),
        LineOutcome::Rejected => panic!("well-formed line was rejected"),
    }
    match run.process_line(clean, &bl) {
        LineOutcome::Document { doc, .. } => assert!(!doc.nsfw),
        LineOutcome::Rejected => panic!("well-formed line was rejected"),
    }
}
