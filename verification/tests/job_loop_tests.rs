use factory_edge_agent::job_loop::{JobAction, JobEvent, JobLoop, JobPhase};

const CSV: &str = "UNIT,MILLIMETRE\nW1,4740\n";

fn waiting(l: &JobLoop) -> bool {
    matches!(l.phase, JobPhase::Waiting)
}

#[test]
fn a_job_runs_and_is_reported() {
    let mut l = JobLoop::new();
    assert!(waiting(&l));
    let woken = JobEvent::Woken { taken: Some("W1-1".to_owned()) };
    assert!(l.accepts(&woken));
    assert!(matches!(l.handle(woken), JobAction::ReadCsv));
    assert!(matches!(&l.phase, JobPhase::ReadingCsv { job_id } if job_id == "W1-1"));
    match l.handle(JobEvent::CsvRead { csv: Some(CSV.to_owned()) }) {
        JobAction::RunJob(req) => {
            assert_eq!(req.id, "W1-1");
            assert_eq!(req.payload_type, "CutListCsv");
            assert_eq!(req.payload, CSV.as_bytes().to_vec());
        },
        _ => panic!("the driver runs the job next"),
    }
    match l.handle(JobEvent::JobRan { ok: true }) {
        JobAction::ReportComplete { job_id } => assert_eq!(job_id, "W1-1"),
        _ => panic!("a finished job is reported"),
    }
    assert!(matches!(l.handle(JobEvent::Reported { ok: true }), JobAction::Wait));
    assert!(waiting(&l));
}

#[test]
fn a_failed_report_still_returns_to_waiting() {
    let mut l = JobLoop::new();
    l.handle(JobEvent::Woken { taken: Some("J".to_owned()) });
    l.handle(JobEvent::CsvRead { csv: Some("x".to_owned()) });
    l.handle(JobEvent::JobRan { ok: true });
    assert!(matches!(l.handle(JobEvent::Reported { ok: false }), JobAction::Wait));
    assert!(waiting(&l));
}

#[test]
fn a_failed_job_is_not_reported() {
    let mut l = JobLoop::new();
    l.handle(JobEvent::Woken { taken: Some("W1-2".to_owned()) });
    l.handle(JobEvent::CsvRead { csv: Some(CSV.to_owned()) });
    assert!(matches!(l.handle(JobEvent::JobRan { ok: false }), JobAction::Wait));
    assert!(waiting(&l));
}

#[test]
fn an_unreadable_cut_list_runs_with_no_bytes() {
    let mut l = JobLoop::new();
    l.handle(JobEvent::Woken { taken: Some("W1-3".to_owned()) });
    match l.handle(JobEvent::CsvRead { csv: None }) {
        JobAction::RunJob(req) => {
            assert_eq!(req.id, "W1-3");
            assert!(req.payload.is_empty());
        },
        _ => panic!("the driver runs the job next"),
    }
}

#[test]
fn non_ascii_cut_list_keeps_its_utf8_bytes() {
    let mut l = JobLoop::new();
    l.handle(JobEvent::Woken { taken: Some("W\u{e9}".to_owned()) });
    match l.handle(JobEvent::CsvRead { csv: Some("L\u{e4}nge,4740\n".to_owned()) }) {
        JobAction::RunJob(req) => assert_eq!(req.payload, "L\u{e4}nge,4740\n".as_bytes().to_vec()),
        _ => panic!("the driver runs the job next"),
    }
}

#[test]
fn waking_with_nothing_pending_waits() {
    let mut l = JobLoop::new();
    assert!(matches!(l.handle(JobEvent::Woken { taken: None }), JobAction::Wait));
    assert!(waiting(&l));
}

#[test]
fn only_the_awaited_outcome_is_accepted() {
    let mut l = JobLoop::new();
    assert!(!l.accepts(&JobEvent::JobRan { ok: true }));
    assert!(!l.accepts(&JobEvent::CsvRead { csv: None }));
    l.handle(JobEvent::Woken { taken: Some("a".to_owned()) });
    assert!(l.accepts(&JobEvent::CsvRead { csv: None }));
    assert!(!l.accepts(&JobEvent::Woken { taken: None }));
    assert!(!l.accepts(&JobEvent::Reported { ok: true }));
}

#[test]
fn the_loop_finishes_when_the_connection_ends() {
    let mut l = JobLoop::new();
    assert!(l.accepts(&JobEvent::ConnectionEnded { clean: true }));
    assert!(matches!(l.handle(JobEvent::ConnectionEnded { clean: true }), JobAction::Finish { clean: true }));
    assert!(matches!(l.phase, JobPhase::Stopped));
    assert!(!l.accepts(&JobEvent::Woken { taken: None }));
    assert!(!l.accepts(&JobEvent::ConnectionEnded { clean: false }));
}

#[test]
fn a_broken_connection_mid_job_finishes_unsuccessfully() {
    let mut l = JobLoop::new();
    l.handle(JobEvent::Woken { taken: Some("J".to_owned()) });
    l.handle(JobEvent::CsvRead { csv: None });
    assert!(l.accepts(&JobEvent::ConnectionEnded { clean: false }));
    assert!(matches!(l.handle(JobEvent::ConnectionEnded { clean: false }), JobAction::Finish { clean: false }));
}
