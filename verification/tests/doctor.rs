use synesthesia::doctor::render::compact_json;
use synesthesia::doctor::report::{build_report, DiagnosticSnapshot, DoctorReport, JsonScalar, Observed};
use synesthesia::doctor::{
    ebpf_mode, infer_color, infer_unicode, kernel_likely_has_ring_buffer, selected_lockdown, CheckStatus, ColorLevel,
    ModeAvailability, ProbeResult,
};
use synesthesia::source::ebpf_prerequisites::{scheduler_tracepoints, tcp_tracepoints};

fn fake() -> DiagnosticSnapshot {
    let mut scheduler: Vec<(String, ProbeResult)> =
        scheduler_tracepoints().iter().map(|spec| (spec.name.to_owned(), ProbeResult::Available)).collect();
    scheduler.sort_by(|a, b| a.0.cmp(&b.0));
    let mut tcp: Vec<(String, ProbeResult)> =
        tcp_tracepoints().iter().map(|spec| (spec.name.to_owned(), ProbeResult::Available)).collect();
    tcp.sort_by(|a, b| a.0.cmp(&b.0));
    DiagnosticSnapshot {
        version: "0.2.0".to_owned(),
        git_commit: None,
        ebpf_build: false,
        os: "linux".to_owned(),
        architecture: "x86_64".to_owned(),
        kernel: Some("6.8.0-test".to_owned()),
        target_env: "linux/gnu".to_owned(),
        stdin_tty: true,
        stdout_tty: true,
        stderr_tty: true,
        terminal_size: Some((100, 30)),
        term: Some("xterm-256color".to_owned()),
        colorterm: Some("truecolor".to_owned()),
        no_color: false,
        locale: Some("C.UTF-8".to_owned()),
        proc_root: true,
        proc_stat: true,
        proc_meminfo: true,
        proc_pids: ProbeResult::Available,
        proc_self_stat: true,
        proc_self_io: true,
        proc_partial_visibility: ProbeResult::Available,
        btf: true,
        bpf_fs: true,
        bpf_fs_mounted: Some(true),
        trace_visibility: ProbeResult::Available,
        unprivileged_bpf: Some("2".to_owned()),
        lockdown: Some("none".to_owned()),
        effective_root: Some(false),
        effective_bpf_caps: Some(false),
        scheduler_collector: true,
        tcp_collector: true,
        scheduler_tracepoints: scheduler,
        tcp_tracepoints: tcp,
    }
}

fn status_of(report: &DoctorReport, id: &str) -> CheckStatus {
    report.checks.iter().find(|check| check.id == id).unwrap().status
}

#[test]
fn color_inference_is_conservative() {
    assert_eq!(infer_color(Some("xterm"), Some("truecolor"), false), ColorLevel::Truecolor);
    assert_eq!(infer_color(Some("xterm-256color"), None, false), ColorLevel::Ansi256);
    assert_eq!(infer_color(Some("xterm"), None, false), ColorLevel::Ansi16);
    assert_eq!(infer_color(Some("xterm"), Some("truecolor"), true), ColorLevel::Monochrome);
    assert_eq!(infer_color(None, None, false), ColorLevel::Unknown);
    assert_eq!(infer_unicode(Some("C")), Some(false));
    assert_eq!(infer_unicode(Some("en_US.UTF-8")), Some(true));
}

#[test]
fn missing_prerequisites_and_unsupported_platform_are_separate() {
    let mut missing = fake();
    missing.btf = false;
    let report = build_report(&missing);
    assert_eq!(report.mode("tcp"), Some(ModeAvailability::NotIncludedInBuild));

    let mut missing_in_ebpf_build = fake();
    missing_in_ebpf_build.ebpf_build = true;
    missing_in_ebpf_build.btf = false;
    let report = build_report(&missing_in_ebpf_build);
    assert_eq!(report.mode("tcp"), Some(ModeAvailability::MissingPrerequisite));

    let mut other = fake();
    other.os = "macos".to_owned();
    let report = build_report(&other);
    assert_eq!(report.mode("proc"), Some(ModeAvailability::UnsupportedPlatform));
    assert_eq!(report.mode("scheduler"), Some(ModeAvailability::UnsupportedPlatform));
}

#[test]
fn proc_partial_visibility_and_tracepoint_loss_are_reported() {
    let mut snapshot = fake();
    snapshot.proc_partial_visibility = ProbeResult::Restricted;
    for entry in snapshot.scheduler_tracepoints.iter_mut() {
        if entry.0 == "sched_switch" {
            entry.1 = ProbeResult::Missing;
        }
    }
    let report = build_report(&snapshot);
    assert_eq!(status_of(&report, "proc.visibility"), CheckStatus::Warn);
    assert_eq!(status_of(&report, "scheduler.tracepoint.sched_switch"), CheckStatus::Warn);
}

#[test]
fn passive_report_marks_live_attachment_not_tested() {
    let report = build_report(&fake());
    for id in ["scheduler.live_attachment", "tcp.live_attachment"] {
        assert_eq!(status_of(&report, id), CheckStatus::NotTested);
    }
}

#[test]
fn ring_buffer_and_lockdown_parsers_are_bounded() {
    assert_eq!(kernel_likely_has_ring_buffer("5.8.0"), Some(true));
    assert_eq!(kernel_likely_has_ring_buffer("5.7.19"), Some(false));
    assert_eq!(kernel_likely_has_ring_buffer("not-a-kernel"), None);
    assert_eq!(selected_lockdown("none [integrity] confidentiality"), "integrity");
}

#[test]
fn requested_check_exit_policy_is_stable() {
    assert!(!matches!(
        ebpf_mode(true, true, true, true, true, true, false, Some(false)),
        ModeAvailability::MissingPrerequisite
    ));
    assert_eq!(
        ebpf_mode(true, true, true, true, true, true, false, Some(false)),
        ModeAvailability::PermissionRequired
    );
    assert_eq!(
        ebpf_mode(true, false, true, true, true, true, false, Some(true)),
        ModeAvailability::MissingPrerequisite
    );
}

#[test]
fn report_text_is_deterministic_and_distinguishes_privilege() {
    let first = build_report(&fake());
    let second = build_report(&fake());
    let text = |report: &DoctorReport| synesthesia::doctor::render::render_text(report, true, false);
    assert_eq!(text(&first), text(&second));
    assert_eq!(first.mode("scheduler"), Some(ModeAvailability::NotIncludedInBuild));
    let mut built = fake();
    built.ebpf_build = true;
    assert_eq!(build_report(&built).mode("scheduler"), Some(ModeAvailability::PermissionRequired));
}

#[test]
fn redirected_text_has_no_escapes_or_private_material() {
    let mut snapshot = fake();
    snapshot.stdout_tty = false;
    let report = build_report(&snapshot);
    let text = synesthesia::doctor::render::render_text(&report, false, false);
    assert!(!text.contains('\u{1b}'));
    assert!(!text.contains("/home/"));
    assert!(!text.contains("10.0."));
    assert!(!text.contains("worker"));
    assert!(!text.contains("sushi-k"));
    assert!(text.contains(synesthesia::doctor::PRIVACY_NOTICE));
}

#[test]
fn observed_text_is_quoted_and_escaped_as_json() {
    let observed = Observed::Scalar(JsonScalar::Text("a\"b\\c\n\t\u{1}\u{1f}é".to_owned()));
    assert_eq!(compact_json(&observed), "\"a\\\"b\\\\c\\n\\t\\u0001\\u001fé\"");
    let listed = Observed::Texts(vec!["x".to_owned(), "\r\u{8}\u{c}".to_owned()]);
    assert_eq!(compact_json(&listed), "[\"x\",\"\\r\\b\\f\"]");
}
