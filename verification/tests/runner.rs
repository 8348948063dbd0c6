use cronwell::Chunk;
use cronwell::LineBuffer;
use cronwell::ProcessIterator;
use cronwell::RawStatus;
use cronwell::ReportAction;
use cronwell::ReportOutcome;
use cronwell::get_unix_exit_status;
use cronwell::normalize_exit_code;
use cronwell::runner::conclude;

/// Run the capture pipeline the way the wrapper's main loop does: merge the
/// given chunks, retain lines, normalize the wait status, decide the report.
fn simulate_run(
    chunks: Vec<Chunk>,
    wait: Option<RawStatus>,
    max_lines: usize,
) -> (i32, ReportAction) {
    let mut mux = ProcessIterator::new();
    for chunk in chunks {
        mux.push(chunk);
    }
    mux.close_stdout();
    mux.close_stderr();
    let mut buf = LineBuffer::new(max_lines);
    while let Some(chunk) = mux.next() {
        buf.append_chunk(&chunk);
    }
    assert!(mux.finished());
    let code = normalize_exit_code(wait);
    let lines = buf.into_sequence();
    let action = conclude(code, &lines);
    (code, action)
}

#[test]
fn direct_exit_code_passes_through() {
    let status = RawStatus { code: Some(3), signal: None };
    assert_eq!(get_unix_exit_status(status), Some(3));
}

#[test]
fn exit_code_takes_precedence_over_signal() {
    let status = RawStatus { code: Some(1), signal: Some(9) };
    assert_eq!(get_unix_exit_status(status), Some(1));
}

#[test]
fn signal_termination_maps_to_documented_offset() {
    let status = RawStatus { code: None, signal: Some(15) };
    assert_eq!(get_unix_exit_status(status), Some(142));
    assert_eq!(normalize_exit_code(Some(status)), 142);
}

#[test]
fn undetermined_status_yields_sentinel() {
    assert_eq!(normalize_exit_code(None), 255);
    let status = RawStatus { code: None, signal: None };
    assert_eq!(get_unix_exit_status(status), None);
    assert_eq!(normalize_exit_code(Some(status)), 255);
}

#[test]
fn successful_run_owes_a_completion_report() {
    let chunks = vec![Chunk::Stdout(b"hello\n".to_vec())];
    let wait = Some(RawStatus { code: Some(0), signal: None });
    let (code, action) = simulate_run(chunks, wait, 200);
    assert_eq!(code, 0);
    assert!(matches!(action, ReportAction::Complete));
}

#[test]
fn failed_run_owes_a_failure_report_with_joined_output() {
    let chunks = vec![
        Chunk::Stderr(b"a\n".to_vec()),
        Chunk::Stderr(b"b\n".to_vec()),
        Chunk::Stderr(b"c\n".to_vec()),
    ];
    let wait = Some(RawStatus { code: Some(3), signal: None });
    let (code, action) = simulate_run(chunks, wait, 200);
    assert_eq!(code, 3);
    match action {
        ReportAction::Failure { status, output } => {
            assert_eq!(status, 3);
            assert_eq!(output, "a\nb\nc");
        }
        ReportAction::Complete => panic!("a failed run must not report completion"),
    }
}

#[test]
fn signal_terminated_run_reports_mapped_code() {
    let wait = Some(RawStatus { code: None, signal: Some(9) });
    let (code, action) = simulate_run(vec![], wait, 200);
    assert_eq!(code, 136);
    assert!(matches!(action, ReportAction::Failure { status: 136, .. }));
}

#[test]
fn report_outcome_never_alters_exit_code() {
    let wait = Some(RawStatus { code: Some(7), signal: None });
    let mut codes = Vec::new();
    for start_outcome in [ReportOutcome::Delivered, ReportOutcome::Failed] {
        for final_outcome in [ReportOutcome::Delivered, ReportOutcome::Failed] {
            // The decision pipeline never reads the outcomes: exercise it
            // alongside each combination and record the code it settles on.
            let (code, _) = simulate_run(
                vec![Chunk::Stdout(b"x\n".to_vec())],
                wait,
                200,
            );
            let _ = (start_outcome, final_outcome);
            codes.push(code);
        }
    }
    assert!(codes.iter().all(|c| *c == 7));
}

#[test]
fn conclude_zero_is_complete_and_carries_no_output() {
    let lines = vec!["noise".to_string()];
    assert!(matches!(conclude(0, &lines), ReportAction::Complete));
}
