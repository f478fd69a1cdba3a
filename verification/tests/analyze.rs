use la_taupe::analysis::{hint_from_lowercase, parse_hint, Hint, Type};
use la_taupe::http::analyze::{
    declared_length, file_too_big, is_server_error_status, is_success_status, plan_upload,
    read_hint, remote_file_name, request_failed, upstream_failure, Chunk, Download, MAX_FILE_SIZE,
};
use la_taupe::http::process::{Permit, PoolAction, ProcessAction, ProcessEvent, Processing, Reply, Stage};
use la_taupe::http::server::listen_address;

#[test]
fn test_empty_file_returns_400() {
    let res = plan_upload(Some("empty.txt".to_string()), Vec::new(), None);
    let reply = res.err().expect("an empty file is refused");
    assert_eq!(reply.status, 400);
    assert_eq!(reply.error.body.as_deref(), Some("No file provided"));
    assert_eq!(reply.error.upstream_body, None);
    assert_eq!(reply.error.upstream_status_code, None);
}

#[test]
fn test_timeout_returns_503() {
    let (mut p, first) = Processing::start::<String>(0);
    assert!(matches!(first, ProcessAction::AcquirePermit));
    assert!(matches!(p.step::<String>(ProcessEvent::PermitGranted), ProcessAction::AcquireInstances));
    assert!(matches!(p.step::<String>(ProcessEvent::InstancesAcquired), ProcessAction::RunAnalysis(0)));
    match p.step::<String>(ProcessEvent::TimedOut) {
        ProcessAction::Respond(Some(PoolAction::Replenish), Permit::GiveBack, Reply::Failure(reply)) => {
            assert_eq!(reply.status, 503);
            assert_eq!(reply.error.body.as_deref(), Some("OCR processing timeout"));
        }
        _ => panic!("a timed out analysis is answered with 503"),
    }
    assert_eq!(p.stage(), Stage::Finished);
}

#[test]
fn upload_keeps_name_bytes_and_hint() {
    let job = plan_upload(Some("scan.png".to_string()), vec![1, 2, 3], Some("RIB")).ok().unwrap();
    assert_eq!(job.bytes, vec![1, 2, 3]);
    assert_eq!(job.name, "scan.png");
    assert_eq!(job.hint, Some(Hint::Type(Type::Rib)));
}

#[test]
fn upload_without_name_is_called_uploaded_file() {
    let job = plan_upload(None, vec![0], None).ok().unwrap();
    assert_eq!(job.name, "uploaded_file");
    assert_eq!(job.hint, None);
}

#[test]
fn hints_are_read_without_regard_to_case() {
    assert_eq!(parse_hint("rib"), Some(Hint::Type(Type::Rib)));
    assert_eq!(parse_hint("RiB"), Some(Hint::Type(Type::Rib)));
    assert_eq!(parse_hint("2DDOC"), Some(Hint::Type(Type::Twoddoc)));
    assert_eq!(parse_hint("2ddoc"), Some(Hint::Type(Type::Twoddoc)));
    assert_eq!(parse_hint("iban"), None);
    assert_eq!(parse_hint(" rib"), None);
    assert_eq!(parse_hint(""), None);
    assert_eq!(read_hint(None), None);
    assert_eq!(read_hint(Some("Rib")), Some(Hint::Type(Type::Rib)));
}

#[test]
fn lower_case_names_only() {
    assert_eq!(hint_from_lowercase("rib"), Some(Hint::Type(Type::Rib)));
    assert_eq!(hint_from_lowercase("RIB"), None);
}

#[test]
fn failed_request_reports_its_cause() {
    let reply = request_failed("connection refused");
    assert_eq!(reply.status, 500);
    assert_eq!(reply.error.body.as_deref(), Some("Request failed: connection refused"));
    assert_eq!(reply.error.upstream_status_code, None);
}

#[test]
fn upstream_server_error_is_a_bad_gateway() {
    let reply = upstream_failure(503, Some("down".to_string()));
    assert_eq!(reply.status, 502);
    assert_eq!(reply.error.upstream_status_code, Some(503));
    assert_eq!(reply.error.upstream_body.as_deref(), Some("down"));
    assert_eq!(reply.error.body.as_deref(), Some("upstream server error"));
}

#[test]
fn upstream_client_error_is_an_internal_error() {
    let reply = upstream_failure(404, None);
    assert_eq!(reply.status, 500);
    assert_eq!(reply.error.upstream_status_code, Some(404));
    assert_eq!(reply.error.upstream_body.as_deref(), Some("unreadable upstream error"));
    assert_eq!(reply.error.body.as_deref(), Some("upstream client error"));
}

#[test]
fn status_classes() {
    assert!(is_success_status(200));
    assert!(is_success_status(299));
    assert!(!is_success_status(300));
    assert!(!is_success_status(199));
    assert!(is_server_error_status(500));
    assert!(is_server_error_status(599));
    assert!(!is_server_error_status(600));
    assert!(!is_server_error_status(499));
}

#[test]
fn content_length_header() {
    assert_eq!(declared_length(Some("1024")), 1024);
    assert_eq!(declared_length(Some("abc")), MAX_FILE_SIZE);
    assert_eq!(declared_length(None), MAX_FILE_SIZE);
    assert_eq!(MAX_FILE_SIZE, 10 * 1024 * 1024);
}

#[test]
fn announced_oversize_file_is_refused() {
    let too_big = (MAX_FILE_SIZE + 1).to_string();
    let reply = Download::start(Some(too_big.as_str())).err().expect("refused");
    assert_eq!(reply.status, 422);
    assert_eq!(reply.error.body.as_deref(), Some("File too big"));
    assert!(Download::start(Some("10485760")).is_ok());
}

#[test]
fn download_collects_chunks_until_the_end() {
    let mut d = Download::start(Some("6")).ok().unwrap();
    assert!(d.is_reading());
    d.receive(Chunk::Data(vec![1, 2]));
    d.receive(Chunk::Data(vec![3, 4, 5, 6]));
    assert!(d.is_reading());
    d.receive(Chunk::End);
    assert!(!d.is_reading());
    d.receive(Chunk::Data(vec![7]));
    assert_eq!(d.finish().ok().unwrap(), vec![1, 2, 3, 4, 5, 6]);
}

#[test]
fn download_failure_keeps_what_arrived() {
    let mut d = Download::start(None).ok().unwrap();
    d.receive(Chunk::Data(vec![9]));
    d.receive(Chunk::Failed);
    assert!(!d.is_reading());
    assert_eq!(d.finish().ok().unwrap(), vec![9]);
}

#[test]
fn download_over_the_limit_stops_and_is_refused() {
    let mut d = Download::start(None).ok().unwrap();
    d.receive(Chunk::Data(vec![0; MAX_FILE_SIZE]));
    assert!(d.is_reading());
    d.receive(Chunk::Data(vec![0]));
    assert!(!d.is_reading());
    let reply = d.finish().err().unwrap();
    assert_eq!(reply.status, 422);
}

#[test]
fn file_too_big_reply() {
    let reply = file_too_big();
    assert_eq!(reply.status, 422);
    assert_eq!(reply.error.body.as_deref(), Some("File too big"));
}

#[test]
fn remote_files_have_a_fixed_name() {
    assert_eq!(remote_file_name(), "remote_file");
}

fn run_to_analysis(timeout: u64) -> Processing {
    let (mut p, _) = Processing::start::<u32>(timeout);
    assert!(matches!(p.step::<u32>(ProcessEvent::PermitGranted), ProcessAction::AcquireInstances));
    assert!(matches!(p.step::<u32>(ProcessEvent::InstancesAcquired), ProcessAction::RunAnalysis(t) if t == timeout));
    assert_eq!(p.stage(), Stage::Analysing);
    p
}

#[test]
fn finished_analysis_is_answered_and_instances_released() {
    let mut p = run_to_analysis(120);
    match p.step(ProcessEvent::AnalysisDone(Ok(7u32))) {
        ProcessAction::Respond(Some(PoolAction::Release), Permit::GiveBack, Reply::Analysis(a)) => assert_eq!(a, 7),
        _ => panic!("expected the analysis"),
    }
    assert!(matches!(p.step::<u32>(ProcessEvent::TimedOut), ProcessAction::Wait));
    assert_eq!(p.stage(), Stage::Finished);
}

#[test]
fn analysis_error_is_unprocessable() {
    let mut p = run_to_analysis(5);
    match p.step::<u32>(ProcessEvent::AnalysisDone(Err("unreadable document".to_string()))) {
        ProcessAction::Respond(Some(PoolAction::Release), Permit::GiveBack, Reply::Failure(reply)) => {
            assert_eq!(reply.status, 422);
            assert_eq!(reply.error.body.as_deref(), Some("unreadable document"));
        }
        _ => panic!("expected an error reply"),
    }
}

#[test]
fn panicked_analysis_replenishes_the_pools() {
    let mut p = run_to_analysis(5);
    match p.step::<u32>(ProcessEvent::AnalysisPanicked) {
        ProcessAction::Respond(Some(PoolAction::Replenish), Permit::GiveBack, Reply::Failure(reply)) => {
            assert_eq!(reply.status, 500);
            assert_eq!(reply.error.body.as_deref(), Some("Internal processing error"));
        }
        _ => panic!("expected an error reply"),
    }
}

#[test]
fn refused_permit_is_service_overloaded() {
    let (mut p, _) = Processing::start::<u32>(5);
    match p.step::<u32>(ProcessEvent::PermitRefused) {
        ProcessAction::Respond(None, Permit::NotHeld, Reply::Failure(reply)) => {
            assert_eq!(reply.status, 503);
            assert_eq!(reply.error.body.as_deref(), Some("Service overloaded"));
        }
        _ => panic!("expected an error reply"),
    }
    assert_eq!(p.stage(), Stage::Finished);
}

#[test]
fn events_out_of_turn_are_ignored() {
    let (mut p, _) = Processing::start::<u32>(5);
    assert!(matches!(p.step::<u32>(ProcessEvent::InstancesAcquired), ProcessAction::Wait));
    assert!(matches!(p.step::<u32>(ProcessEvent::AnalysisDone(Ok(1))), ProcessAction::Wait));
    assert_eq!(p.stage(), Stage::AwaitingPermit);
}

#[test]
fn listen_address_default() {
    assert_eq!(listen_address(None), "127.0.0.1:8080");
    assert_eq!(listen_address(Some("0.0.0.0:9000".to_string())), "0.0.0.0:9000");
}
