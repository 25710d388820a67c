use ctfbot::controller::{
    first_pod_name, is_pod_ready, job_manifest, pod_selector, ControlError, Controller, JobSnapshot,
    JobStatusSnapshot,
};
use ctfbot::exchange::{frame_command, ExchangeError, OutputCollector, ReadOutcome, ReadStep};
use ctfbot::models::User;

#[test]
fn new_controller_is_not_ready() {
    let c = Controller::new("ctf-jobs");
    match c.get_resources() {
        Err(e) => {
            assert!(matches!(e, ControlError::NotReady));
            assert_eq!(e.message(), "Attempting to use unready controller");
        },
        Ok(_) => panic!("unconnected controller gave resources"),
    }
}

#[test]
fn control_error_messages() {
    assert_eq!(ControlError::JobCreation.message(), "Could not create job");
    assert_eq!(ControlError::JobDeletion.message(), "Could not delete job");
    assert_eq!(ControlError::Attach.message(), "Could not attach to process");
    assert_eq!(ControlError::NoInputStream.message(), "Could not create input stream");
    assert_eq!(ControlError::NoOutputStream.message(), "Could not create output stream");
    assert_eq!(ControlError::PodNotFound.message(), "Pod not found after Job creation");
}

#[test]
fn selector_names_the_job() {
    let u = User { id: "1234".to_string(), ongoing: false };
    assert_eq!(pod_selector(&u), "job-name=1234");
}

#[test]
fn first_pod_is_taken() {
    let names = vec!["p1".to_string(), "p2".to_string()];
    assert_eq!(first_pod_name(&names).ok().unwrap(), "p1");
    match first_pod_name(&Vec::new()) {
        Err(e) => assert_eq!(e.message(), "Pod not found after Job creation"),
        Ok(_) => panic!("pod found in an empty list"),
    }
}

#[test]
fn pod_readiness() {
    assert!(!is_pod_ready(None));
    assert!(!is_pod_ready(Some(&JobSnapshot { status: None })));
    assert!(!is_pod_ready(Some(&JobSnapshot { status: Some(JobStatusSnapshot { ready: None }) })));
    assert!(!is_pod_ready(Some(&JobSnapshot { status: Some(JobStatusSnapshot { ready: Some(0) }) })));
    assert!(!is_pod_ready(Some(&JobSnapshot { status: Some(JobStatusSnapshot { ready: Some(-1) }) })));
    assert!(is_pod_ready(Some(&JobSnapshot { status: Some(JobStatusSnapshot { ready: Some(1) }) })));
    assert!(is_pod_ready(Some(&JobSnapshot { status: Some(JobStatusSnapshot { ready: Some(3) }) })));
}

#[test]
fn job_manifest_describes_the_challenge_job() {
    let j = job_manifest(&"42".to_string(), &"ipvfletch/kiddoctf:latest".to_string());
    assert_eq!(j.name, "42");
    assert_eq!(j.job_label, ("job-name".to_string(), "42".to_string()));
    assert_eq!(j.template_label, ("app.kubernetes.io/job-name".to_string(), "42".to_string()));
    assert_eq!(j.container_name, "42");
    assert_eq!(j.image, "ipvfletch/kiddoctf:latest");
    assert_eq!(j.command, vec!["tail".to_string(), "-f".to_string()]);
    assert!(!j.privileged);
    assert!(!j.allow_privilege_escalation);
    assert_eq!(j.restart_policy, "Never");
    assert_eq!(j.completions, 1);
    assert_eq!(j.parallelism, 1);
}

#[test]
fn command_is_framed_as_a_line() {
    assert_eq!(frame_command("ls -la"), "ls -la\n");
    assert_eq!(frame_command(""), "\n");
}

#[test]
fn collector_gathers_until_silence() {
    let mut c = OutputCollector::new();
    assert!(matches!(c.on_read(ReadOutcome::Data(b"  hel".to_vec())), ReadStep::Continue));
    assert!(matches!(c.on_read(ReadOutcome::Data(b"lo\n".to_vec())), ReadStep::Continue));
    assert!(matches!(c.on_read(ReadOutcome::TimedOut), ReadStep::Done));
    assert_eq!(c.finish(), "hello\n");
}

#[test]
fn collector_stops_when_shell_closes() {
    let mut c = OutputCollector::new();
    assert!(matches!(c.on_read(ReadOutcome::Data(b"x".to_vec())), ReadStep::Continue));
    assert!(matches!(c.on_read(ReadOutcome::Data(Vec::new())), ReadStep::Done));
    assert_eq!(c.finish(), "x");
}

#[test]
fn collector_reports_failed_reads() {
    let mut c = OutputCollector::new();
    match c.on_read(ReadOutcome::Failed("broken pipe".to_string())) {
        ReadStep::Failed(e) => assert_eq!(e, "broken pipe"),
        _ => panic!("failure not reported"),
    }
    assert_eq!(c.finish(), "");
}

#[test]
fn collector_replaces_invalid_utf8_and_trims() {
    let mut c = OutputCollector::new();
    c.on_read(ReadOutcome::Data(vec![b'\n', b'\t', 0xff, b'a', b' ']));
    assert_eq!(c.finish(), "\u{fffd}a ");
}

#[test]
fn exchange_error_messages() {
    assert_eq!(ExchangeError::WriteFailed.message(), "Could not write to session");
    assert_eq!(ExchangeError::FlushFailed.message(), "Could not flush stdin");
    assert_eq!(ExchangeError::ReadFailed("eof".to_string()).message(), "eof");
}

#[test]
fn blank_output_gets_the_notice() {
    let mut c = OutputCollector::new();
    c.on_read(ReadOutcome::Data(" \n\t\r\u{a0}".as_bytes().to_vec()));
    c.on_read(ReadOutcome::TimedOut);
    let out = c.finish();
    assert_eq!(out, "");
    assert_eq!(ctfbot::commands::exec_reply(out), "No output.");
}

#[test]
fn trimming_keeps_inner_and_trailing_white_space() {
    let mut c = OutputCollector::new();
    c.on_read(ReadOutcome::Data("\u{3000}\u{2028} a b \n".as_bytes().to_vec()));
    assert_eq!(c.finish(), "a b \n");
}
