use haven_desktop::cert_trust::{cert_prompt, fingerprint, fingerprint_of_digest, CertDecision, CertTrust};
use haven_desktop::server::{
    detect_candidates, inspect_haven_dir, port_search_range, ready_signal,
    server_url, start_spawn_failed, start_without_port, stderr_log_line, stdout_log_line,
    wait_step, DirBase, ServerManager, WaitStep,
};

#[test]
fn server_address_formula() {
    assert_eq!(server_url(false, 3000), "http://localhost:3000");
    assert_eq!(server_url(true, 65535), "https://localhost:65535");
    assert_eq!(server_url(false, 0), "http://localhost:0");
}

#[test]
fn start_when_running_echoes_status() {
    let mut m = ServerManager::new();
    let started = m.server_started(3001, true);
    assert!(started.success);
    assert_eq!(started.port, Some(3001));
    assert_eq!(started.url.as_deref(), Some("https://localhost:3001"));
    let again = m.start_server(false).unwrap();
    assert!(again.success);
    assert_eq!(again.port, Some(3001));
    assert_eq!(again.url.as_deref(), Some("https://localhost:3001"));
    let st = m.status();
    assert!(st.running);
    assert_eq!(st.port, Some(3001));
}

#[test]
fn start_refuses_directory_without_server_js() {
    let m = ServerManager::new();
    let r = m.start_server(false).unwrap();
    assert!(!r.success);
    assert_eq!(r.error_key.as_deref(), Some("server.error.fileNotFound"));
    assert!(m.start_server(true).is_none());
}

#[test]
fn start_failures() {
    let r = start_without_port();
    assert!(!r.success);
    assert_eq!(r.error_key.as_deref(), Some("server.error.noPort"));
    let e = start_spawn_failed("No such file".to_string());
    assert!(!e.success);
    assert_eq!(e.error.as_deref(), Some("No such file"));
    assert_eq!(e.error_key, None);
}

#[test]
fn stop_clears_status() {
    let mut m = ServerManager::new();
    m.server_started(3000, false);
    let r = m.stop_server();
    assert!(!r.running);
    assert_eq!(r.port, None);
    assert!(m.intentional_stop);
    let st = m.status();
    assert!(!st.running);
    assert_eq!(st.url, None);
}

#[test]
fn readiness_lines() {
    assert_eq!(ready_signal("HTTPS ENABLED on 3000"), Some(true));
    assert_eq!(ready_signal("Server Listening on port 3000"), Some(false));
    assert_eq!(ready_signal("app started"), Some(false));
    assert_eq!(ready_signal("RUNNING"), Some(false));
    assert_eq!(ready_signal("https enabled, listening"), Some(true));
    assert_eq!(ready_signal("loading plugins"), None);
}

#[test]
fn waiting_for_readiness() {
    assert!(matches!(wait_step(Some(true), 0), WaitStep::Ready(true)));
    assert!(matches!(wait_step(None, 15001), WaitStep::TimedOut));
    assert!(matches!(wait_step(None, 15000), WaitStep::Wait));
}

#[test]
fn log_lines() {
    assert_eq!(stdout_log_line("hello"), "hello\n");
    assert_eq!(stderr_log_line("boom"), "[ERR] boom\n");
}

#[test]
fn port_range_saturates() {
    assert_eq!(port_search_range(3000), (3000, 3100));
    assert_eq!(port_search_range(65500), (65500, 65535));
}

#[test]
fn candidates_in_order() {
    let c = detect_candidates(true, true, true, false, true);
    assert_eq!(c.len(), 9);
    assert!(matches!(c[0].base, DirBase::Saved));
    assert!(c[0].parts.is_empty());
    assert!(matches!(c[1].base, DirBase::CwdParent));
    assert_eq!(c[1].parts, vec!["Haven"]);
    assert_eq!(c[4].parts, vec!["Desktop", "Haven"]);
    assert!(matches!(c[6].base, DirBase::DataLocal));
    assert_eq!(c[8].parts, vec!["Programs", "HavenServer"]);
    let none = detect_candidates(false, false, false, true, true);
    assert!(none.is_empty());
}

#[test]
fn inspect_reads_package_json() {
    let r = inspect_haven_dir("/srv/haven", true, Some("\u{feff}{\"name\":\"haven\",\"version\":\"2.1.0\"}")).unwrap();
    assert!(r.found);
    assert_eq!(r.path.as_deref(), Some("/srv/haven"));
    assert_eq!(r.version.as_deref(), Some("2.1.0"));
    let no_version = inspect_haven_dir("/srv/h", true, Some("{\"name\":\"haven\",\"version\":3}")).unwrap();
    assert_eq!(no_version.version, None);
    assert!(inspect_haven_dir("/srv/other", true, Some("{\"name\":\"other\"}")).is_none());
    assert!(inspect_haven_dir("/srv/bad", true, Some("not json")).is_none());
    assert!(inspect_haven_dir("/srv/missing", false, Some("{\"name\":\"haven\"}")).is_none());
    assert!(inspect_haven_dir("/srv/unreadable", true, None).is_none());
}

#[test]
fn fingerprint_of_known_digest() {
    assert_eq!(fingerprint_of_digest(&[0x0a, 0xff, 0x10]), "0A:FF:10");
    assert_eq!(fingerprint_of_digest(&[]), "");
    assert_eq!(
        fingerprint(b"abc"),
        "BA:78:16:BF:8F:01:CF:EA:41:41:40:DE:5D:AE:22:23:B0:03:61:A3:96:17:7A:9C:B4:10:FF:61:F2:00:15:AD"
    );
}

#[test]
fn one_question_per_host() {
    let mut t = CertTrust::new();
    match t.decide("h:443", b"cert", None, 1) {
        CertDecision::Prompt { fingerprint: fp, previous } => {
            assert_eq!(fp, fingerprint(b"cert"));
            assert_eq!(previous, None);
        }
        _ => panic!("expected a question"),
    }
    assert!(matches!(t.decide("h:443", b"cert", None, 2), CertDecision::Queued));
    assert_eq!(t.settle("h:443", true), vec![1, 2]);
    assert!(t.settle("h:443", true).is_empty());
}

#[test]
fn refusal_is_final() {
    let mut t = CertTrust::new();
    t.decide("h", b"cert", None, 7);
    assert_eq!(t.settle("h", false), vec![7]);
    let fp = fingerprint(b"cert");
    assert!(matches!(t.decide("h", b"cert", Some(fp.as_str()), 8), CertDecision::Refuse));
}

#[test]
fn pinned_certificate_accepted_and_empty_refused() {
    let mut t = CertTrust::new();
    let fp = fingerprint(b"der");
    assert!(matches!(t.decide("h", b"der", Some(fp.as_str()), 1), CertDecision::Accept));
    assert!(matches!(t.decide("h", b"", None, 2), CertDecision::Refuse));
    match t.decide("h", b"other", Some(fp.as_str()), 3) {
        CertDecision::Prompt { previous, .. } => assert_eq!(previous.as_deref(), Some(fp.as_str())),
        _ => panic!("expected a question"),
    }
}

#[test]
fn prompt_texts() {
    let p = cert_prompt("en", "h.example:443:443", "AA:BB", None);
    assert_eq!(p.title, "cert.title");
    assert_eq!(p.body, "cert.unknownMessage\n\ncert.unknownDetail\n\ncert.fingerprint");
    assert_eq!(p.trust_label, "cert.trust");
    assert_eq!(p.cancel_label, "Cancel");
    let changed = cert_prompt("en", "h", "AA", Some("BB"));
    assert_eq!(changed.trust_label, "cert.trustNew");
    assert_eq!(
        changed.body,
        "cert.changedMessage\n\ncert.changedDetail\n\ncert.previousFingerprint\ncert.fingerprint"
    );
}
