//! The doctor report: its checks, what each check observed, and how the
//! report follows from a passive snapshot of the machine.
use vstd::prelude::*;

use super::{
    availability_text, color_inference, color_label, ebpf_mode, ebpf_readiness, infer_color,
    infer_unicode, kernel_likely_has_ring_buffer, libc_description, libc_text, opt_view,
    privilege_from_identity, privilege_inference, ring_buffer_inference, unicode_inference,
    CheckGroup, CheckStatus, ColorLevel, ModeAvailability, ProbeResult, DOCTOR_SCHEMA_VERSION,
    PRIVACY_NOTICE,
};
use crate::source::ebpf_prerequisites::{
    scheduler_btf_type_names, scheduler_btf_types, tcp_btf_type_names, tcp_btf_types,
    SCHEDULER_COLLECTOR, SUPPORTED_ARCHITECTURE, TCP_COLLECTOR,
};
use crate::text::str_eq;

verus! {

/// A JSON scalar recorded as (part of) the observed value of a check.
#[derive(Clone, Debug)]
pub enum JsonScalar {
    Null,
    Bool(bool),
    Number(u64),
    Text(String),
}

/// The value of a [`JsonScalar`].
pub enum ScalarView {
    Null,
    Bool(bool),
    Number(u64),
    Text(Seq<char>),
}

impl View for JsonScalar {
    type V = ScalarView;

    open spec fn view(&self) -> ScalarView {
        match self {
            JsonScalar::Null => ScalarView::Null,
            JsonScalar::Bool(b) => ScalarView::Bool(*b),
            JsonScalar::Number(n) => ScalarView::Number(*n),
            JsonScalar::Text(t) => ScalarView::Text(t@),
        }
    }
}

/// What a check observed: one scalar, a list of texts, or named scalars
/// (an object, its keys in ascending order).
#[derive(Clone, Debug)]
pub enum Observed {
    Scalar(JsonScalar),
    Texts(Vec<String>),
    Fields(Vec<(String, JsonScalar)>),
}

/// The value of an [`Observed`].
pub enum ObservedView {
    Scalar(ScalarView),
    Texts(Seq<Seq<char>>),
    Fields(Seq<(Seq<char>, ScalarView)>),
}

impl View for Observed {
    type V = ObservedView;

    open spec fn view(&self) -> ObservedView {
        match self {
            Observed::Scalar(s) => ObservedView::Scalar(s@),
            Observed::Texts(t) => ObservedView::Texts(t@.map_values(|x: String| x@)),
            Observed::Fields(f) => ObservedView::Fields(
                f@.map_values(|e: (String, JsonScalar)| (e.0@, e.1@)),
            ),
        }
    }
}

/// The text of an optional string.
pub open spec fn opt_text(o: Option<String>) -> Option<Seq<char>> {
    match o {
        Some(t) => Some(t@),
        None => None,
    }
}

/// The value of an optional observation.
pub open spec fn opt_observed(o: Option<Observed>) -> Option<ObservedView> {
    match o {
        Some(x) => Some(x@),
        None => None,
    }
}

/// One diagnostic check of the report.
#[derive(Clone, Debug)]
pub struct DoctorCheck {
    pub id: String,
    pub group: CheckGroup,
    pub label: String,
    pub status: CheckStatus,
    pub observed: Option<Observed>,
    pub summary: String,
    pub remediation: Option<String>,
    pub safe_to_share: bool,
}

/// The value of a [`DoctorCheck`].
pub struct CheckView {
    pub id: Seq<char>,
    pub group: CheckGroup,
    pub label: Seq<char>,
    pub status: CheckStatus,
    pub observed: Option<ObservedView>,
    pub summary: Seq<char>,
    pub remediation: Option<Seq<char>>,
    pub safe_to_share: bool,
}

impl View for DoctorCheck {
    type V = CheckView;

    open spec fn view(&self) -> CheckView {
        CheckView {
            id: self.id@,
            group: self.group,
            label: self.label@,
            status: self.status,
            observed: opt_observed(self.observed),
            summary: self.summary@,
            remediation: opt_text(self.remediation),
            safe_to_share: self.safe_to_share,
        }
    }
}

/// The values of a list of checks.
pub open spec fn check_views(s: Seq<DoctorCheck>) -> Seq<CheckView> {
    s.map_values(|c: DoctorCheck| c@)
}

/// A check that is safe to share, as every check of the report is.
pub open spec fn check(
    id: Seq<char>,
    group: CheckGroup,
    label: Seq<char>,
    status: CheckStatus,
    observed: Option<ObservedView>,
    summary: Seq<char>,
    remediation: Option<Seq<char>>,
) -> CheckView {
    CheckView { id, group, label, status, observed, summary, remediation, safe_to_share: true }
}

/// An observed text.
pub open spec fn seen_text(t: Seq<char>) -> Option<ObservedView> {
    Some(ObservedView::Scalar(ScalarView::Text(t)))
}

/// An observed flag.
pub open spec fn seen_bool(b: bool) -> Option<ObservedView> {
    Some(ObservedView::Scalar(ScalarView::Bool(b)))
}

/// An optional text as a scalar: the text, or null.
pub open spec fn text_or_null(o: Option<Seq<char>>) -> ScalarView {
    match o {
        Some(t) => ScalarView::Text(t),
        None => ScalarView::Null,
    }
}

/// An optional flag as a scalar: the flag, or null.
pub open spec fn bool_or_null(o: Option<bool>) -> ScalarView {
    match o {
        Some(b) => ScalarView::Bool(b),
        None => ScalarView::Null,
    }
}

/// Appends one check.
fn push(
    checks: &mut Vec<DoctorCheck>,
    id: String,
    group: CheckGroup,
    label: String,
    status: CheckStatus,
    observed: Option<Observed>,
    summary: &str,
    remediation: Option<&str>,
)
    ensures
        check_views(final(checks)@) == check_views(old(checks)@).push(
            check(id@, group, label@, status, opt_observed(observed), summary@, opt_view(remediation)),
        ),
{
    let ghost before = check_views(checks@);
    let ghost expected = check(id@, group, label@, status, opt_observed(observed), summary@, opt_view(remediation));
    let remediation = match remediation {
        Some(r) => Some(String::from_str(r)),
        None => None,
    };
    checks.push(
        DoctorCheck {
            id,
            group,
            label,
            status,
            observed,
            summary: String::from_str(summary),
            remediation,
            safe_to_share: true,
        },
    );
    proof {
        assert(check_views(checks@) =~= before.push(expected));
    }
}

/// A literal as an owned string.
fn owned(s: &str) -> (r: String)
    ensures
        r@ == s@,
{
    String::from_str(s)
}

/// An observed text value.
fn text_value(t: String) -> (o: Option<Observed>)
    ensures
        opt_observed(o) == seen_text(t@),
{
    Some(Observed::Scalar(JsonScalar::Text(t)))
}

/// An observed flag value.
fn bool_value(b: bool) -> (o: Option<Observed>)
    ensures
        opt_observed(o) == seen_bool(b),
{
    Some(Observed::Scalar(JsonScalar::Bool(b)))
}

/// A copy of an optional string.
fn copy_text(o: &Option<String>) -> (r: Option<String>)
    ensures
        opt_text(r) == opt_text(*o),
{
    match o {
        Some(t) => Some(t.clone()),
        None => None,
    }
}

/// An optional string as a scalar.
fn text_or_null_value(o: &Option<String>) -> (r: JsonScalar)
    ensures
        r@ == text_or_null(opt_text(*o)),
{
    match o {
        Some(t) => JsonScalar::Text(t.clone()),
        None => JsonScalar::Null,
    }
}

/// An optional flag as a scalar.
fn bool_or_null_value(o: Option<bool>) -> (r: JsonScalar)
    ensures
        r@ == bool_or_null(o),
{
    match o {
        Some(b) => JsonScalar::Bool(b),
        None => JsonScalar::Null,
    }
}

/// Everything the doctor observed about this build and machine, gathered
/// passively before any decision is made.
#[derive(Clone, Debug)]
pub struct DiagnosticSnapshot {
    /// The version embedded in the executable.
    pub version: String,
    /// The build commit, when the build embedded one.
    pub git_commit: Option<String>,
    /// Whether the launcher contains the eBPF loader.
    pub ebpf_build: bool,
    pub os: String,
    pub architecture: String,
    pub kernel: Option<String>,
    /// `os/env`, the target operating system and C environment.
    pub target_env: String,
    pub stdin_tty: bool,
    pub stdout_tty: bool,
    pub stderr_tty: bool,
    /// Width and height of the terminal.
    pub terminal_size: Option<(u16, u16)>,
    pub term: Option<String>,
    pub colorterm: Option<String>,
    pub no_color: bool,
    pub locale: Option<String>,
    pub proc_root: bool,
    pub proc_stat: bool,
    pub proc_meminfo: bool,
    pub proc_pids: ProbeResult,
    pub proc_self_stat: bool,
    pub proc_self_io: bool,
    pub proc_partial_visibility: ProbeResult,
    pub btf: bool,
    pub bpf_fs: bool,
    pub bpf_fs_mounted: Option<bool>,
    pub trace_visibility: ProbeResult,
    pub unprivileged_bpf: Option<String>,
    pub lockdown: Option<String>,
    pub effective_root: Option<bool>,
    pub effective_bpf_caps: Option<bool>,
    pub scheduler_collector: bool,
    pub tcp_collector: bool,
    /// Each scheduler tracepoint by name, in ascending name order.
    pub scheduler_tracepoints: Vec<(String, ProbeResult)>,
    /// Each TCP tracepoint by name, in ascending name order.
    pub tcp_tracepoints: Vec<(String, ProbeResult)>,
}

/// Is the snapshot of a Linux machine?
pub open spec fn on_linux(s: DiagnosticSnapshot) -> bool {
    s.os@ == "linux"@
}

/// The checks about the build and platform.
pub open spec fn build_section(s: DiagnosticSnapshot) -> Seq<CheckView> {
    let linux = on_linux(s);
    let git = opt_text(s.git_commit);
    let kernel = opt_text(s.kernel);
    seq![
        check(
            "build.version"@,
            CheckGroup::Build,
            "Synesthesia version"@,
            CheckStatus::Pass,
            seen_text(s.version@),
            "version embedded in this executable"@,
            None,
        ),
        check(
            "build.git_commit"@,
            CheckGroup::Build,
            "Build commit"@,
            if git is Some { CheckStatus::Pass } else { CheckStatus::Unknown },
            match git { Some(g) => seen_text(g), None => None },
            if git is Some {
                "reproducibly embedded by the build"@
            } else {
                "commit identity was not available to this build"@
            },
            None,
        ),
        check(
            "platform.target"@,
            CheckGroup::Build,
            "Target platform"@,
            CheckStatus::Pass,
            seen_text(s.os@ + "/"@ + s.architecture@),
            "compile-time Rust target"@,
            None,
        ),
        check(
            "platform.kernel"@,
            CheckGroup::Build,
            "Kernel release"@,
            if linux && kernel is Some {
                CheckStatus::Pass
            } else if linux {
                CheckStatus::Unknown
            } else {
                CheckStatus::NotApplicable
            },
            match kernel { Some(k) => seen_text(k), None => None },
            if linux {
                "read from the kernel release interface"@
            } else {
                "Linux kernel checks do not apply"@
            },
            None,
        ),
        check(
            "platform.libc"@,
            CheckGroup::Build,
            "C runtime"@,
            CheckStatus::Unknown,
            seen_text(libc_text(s.target_env@)),
            "target family is known; runtime library version is not actively probed"@,
            None,
        ),
        check(
            "build.ebpf"@,
            CheckGroup::Build,
            "eBPF support in build"@,
            if s.ebpf_build { CheckStatus::Pass } else { CheckStatus::Warn },
            seen_bool(s.ebpf_build),
            if s.ebpf_build {
                "the launcher contains the Linux eBPF loader"@
            } else {
                "this launcher was built without the ebpf feature"@
            },
            Some("Build release binaries with `cargo build --release --features ebpf --bins`."@),
        ),
    ]
}

/// Is the snapshot's operating system Linux?
fn is_linux(s: &DiagnosticSnapshot) -> (b: bool)
    ensures
        b == on_linux(*s),
{
    str_eq(s.os.as_str(), "linux")
}

/// Appends the checks about the build and platform.
fn add_build_checks(checks: &mut Vec<DoctorCheck>, s: &DiagnosticSnapshot)
    ensures
        check_views(final(checks)@) == check_views(old(checks)@) + build_section(*s),
{
    let ghost start = check_views(checks@);
    let linux = is_linux(s);
    push(
        checks,
        owned("build.version"),
        CheckGroup::Build,
        owned("Synesthesia version"),
        CheckStatus::Pass,
        text_value(s.version.clone()),
        "version embedded in this executable",
        None,
    );
    let git = copy_text(&s.git_commit);
    let has_git = git.is_some();
    let git_observed = match git {
        Some(g) => text_value(g),
        None => None,
    };
    push(
        checks,
        owned("build.git_commit"),
        CheckGroup::Build,
        owned("Build commit"),
        if has_git { CheckStatus::Pass } else { CheckStatus::Unknown },
        git_observed,
        if has_git {
            "reproducibly embedded by the build"
        } else {
            "commit identity was not available to this build"
        },
        None,
    );
    let mut target = s.os.clone();
    target.append("/");
    target.append(s.architecture.as_str());
    push(
        checks,
        owned("platform.target"),
        CheckGroup::Build,
        owned("Target platform"),
        CheckStatus::Pass,
        text_value(target),
        "compile-time Rust target",
        None,
    );
    let kernel = copy_text(&s.kernel);
    let has_kernel = kernel.is_some();
    let kernel_observed = match kernel {
        Some(k) => text_value(k),
        None => None,
    };
    push(
        checks,
        owned("platform.kernel"),
        CheckGroup::Build,
        owned("Kernel release"),
        if linux && has_kernel {
            CheckStatus::Pass
        } else if linux {
            CheckStatus::Unknown
        } else {
            CheckStatus::NotApplicable
        },
        kernel_observed,
        if linux {
            "read from the kernel release interface"
        } else {
            "Linux kernel checks do not apply"
        },
        None,
    );
    let libc = libc_description(s.target_env.as_str());
    push(
        checks,
        owned("platform.libc"),
        CheckGroup::Build,
        owned("C runtime"),
        CheckStatus::Unknown,
        text_value(libc),
        "target family is known; runtime library version is not actively probed",
        None,
    );
    push(
        checks,
        owned("build.ebpf"),
        CheckGroup::Build,
        owned("eBPF support in build"),
        if s.ebpf_build { CheckStatus::Pass } else { CheckStatus::Warn },
        bool_value(s.ebpf_build),
        if s.ebpf_build {
            "the launcher contains the Linux eBPF loader"
        } else {
            "this launcher was built without the ebpf feature"
        },
        Some("Build release binaries with `cargo build --release --features ebpf --bins`."),
    );
    proof {
        assert(check_views(checks@) =~= start + build_section(*s));
    }
}


/// A check of whether one standard stream is a terminal.
pub open spec fn tty_check(id: Seq<char>, label: Seq<char>, value: bool) -> CheckView {
    check(
        id,
        CheckGroup::Terminal,
        label,
        if value { CheckStatus::Pass } else { CheckStatus::Warn },
        seen_bool(value),
        if value {
            "attached to a terminal"@
        } else {
            "not attached; interactive mode may be unsuitable, but snapshots remain usable"@
        },
        None,
    )
}

/// The terminal size as an object with `height` and `width`.
pub open spec fn size_observed(size: Option<(u16, u16)>) -> Option<ObservedView> {
    match size {
        Some((width, height)) => Some(
            ObservedView::Fields(
                seq![("height"@, ScalarView::Number(height as u64)), ("width"@, ScalarView::Number(width as u64))],
            ),
        ),
        None => None,
    }
}

/// The checks about the terminal.
pub open spec fn terminal_section(s: DiagnosticSnapshot) -> Seq<CheckView> {
    let color = color_inference(opt_text(s.term), opt_text(s.colorterm), s.no_color);
    let unicode = unicode_inference(opt_text(s.locale));
    let interactive = s.stdin_tty && s.stdout_tty;
    seq![
        tty_check("terminal.stdin_tty"@, "stdin is a TTY"@, s.stdin_tty),
        tty_check("terminal.stdout_tty"@, "stdout is a TTY"@, s.stdout_tty),
        tty_check("terminal.stderr_tty"@, "stderr is a TTY"@, s.stderr_tty),
        check(
            "terminal.size"@,
            CheckGroup::Terminal,
            "Terminal dimensions"@,
            if s.terminal_size is Some { CheckStatus::Pass } else { CheckStatus::Unknown },
            size_observed(s.terminal_size),
            "queried without emitting terminal control sequences"@,
            None,
        ),
        check(
            "terminal.environment"@,
            CheckGroup::Terminal,
            "Terminal environment"@,
            if s.term is Some { CheckStatus::Pass } else { CheckStatus::Unknown },
            Some(
                ObservedView::Fields(
                    seq![
                        ("COLORTERM"@, text_or_null(opt_text(s.colorterm))),
                        ("NO_COLOR"@, ScalarView::Bool(s.no_color)),
                        ("TERM"@, text_or_null(opt_text(s.term))),
                    ],
                ),
            ),
            "capability is inferred from conventional environment hints, not proven"@,
            None,
        ),
        check(
            "terminal.color"@,
            CheckGroup::Terminal,
            "Likely color level"@,
            if color == ColorLevel::Unknown { CheckStatus::Unknown } else { CheckStatus::Pass },
            seen_text(color_label(color)),
            "inferred without emitting a color probe"@,
            None,
        ),
        check(
            "terminal.unicode"@,
            CheckGroup::Terminal,
            "Unicode locale likelihood"@,
            match unicode {
                Some(true) => CheckStatus::Pass,
                Some(false) => CheckStatus::Warn,
                None => CheckStatus::Unknown,
            },
            match unicode { Some(u) => seen_bool(u), None => None },
            "inferred from locale naming only; ASCII mode remains available"@,
            None,
        ),
        check(
            "terminal.interactive"@,
            CheckGroup::Terminal,
            "Interactive rendering"@,
            if interactive { CheckStatus::Pass } else { CheckStatus::Warn },
            seen_bool(interactive),
            if interactive {
                "raw input and alternate-screen rendering are plausible"@
            } else {
                "use `--snapshot` when input or output is redirected"@
            },
            None,
        ),
    ]
}

/// An optional string as an optional slice of it.
fn as_opt_str(o: &Option<String>) -> (r: Option<&str>)
    ensures
        opt_view(r) == opt_text(*o),
{
    match o {
        Some(t) => Some(t.as_str()),
        None => None,
    }
}

/// Appends one terminal-stream check.
fn push_tty(checks: &mut Vec<DoctorCheck>, id: &str, label: &str, value: bool)
    ensures
        check_views(final(checks)@) == check_views(old(checks)@).push(tty_check(id@, label@, value)),
{
    push(
        checks,
        owned(id),
        CheckGroup::Terminal,
        owned(label),
        if value { CheckStatus::Pass } else { CheckStatus::Warn },
        bool_value(value),
        if value {
            "attached to a terminal"
        } else {
            "not attached; interactive mode may be unsuitable, but snapshots remain usable"
        },
        None,
    );
}

/// Appends the checks about the terminal.
fn add_terminal_checks(checks: &mut Vec<DoctorCheck>, s: &DiagnosticSnapshot)
    ensures
        check_views(final(checks)@) == check_views(old(checks)@) + terminal_section(*s),
{
    let ghost start = check_views(checks@);
    push_tty(checks, "terminal.stdin_tty", "stdin is a TTY", s.stdin_tty);
    push_tty(checks, "terminal.stdout_tty", "stdout is a TTY", s.stdout_tty);
    push_tty(checks, "terminal.stderr_tty", "stderr is a TTY", s.stderr_tty);
    let size = match s.terminal_size {
        Some((width, height)) => {
            let mut fields: Vec<(String, JsonScalar)> = Vec::new();
            fields.push((owned("height"), JsonScalar::Number(height as u64)));
            fields.push((owned("width"), JsonScalar::Number(width as u64)));
            proof {
                assert(fields@.map_values(|e: (String, JsonScalar)| (e.0@, e.1@)) =~= seq![
                    ("height"@, ScalarView::Number(height as u64)),
                    ("width"@, ScalarView::Number(width as u64)),
                ]);
            }
            Some(Observed::Fields(fields))
        },
        None => None,
    };
    push(
        checks,
        owned("terminal.size"),
        CheckGroup::Terminal,
        owned("Terminal dimensions"),
        if s.terminal_size.is_some() { CheckStatus::Pass } else { CheckStatus::Unknown },
        size,
        "queried without emitting terminal control sequences",
        None,
    );
    let mut env: Vec<(String, JsonScalar)> = Vec::new();
    env.push((owned("COLORTERM"), text_or_null_value(&s.colorterm)));
    env.push((owned("NO_COLOR"), JsonScalar::Bool(s.no_color)));
    env.push((owned("TERM"), text_or_null_value(&s.term)));
    let ghost env_view = ObservedView::Fields(
        seq![
            ("COLORTERM"@, text_or_null(opt_text(s.colorterm))),
            ("NO_COLOR"@, ScalarView::Bool(s.no_color)),
            ("TERM"@, text_or_null(opt_text(s.term))),
        ],
    );
    proof {
        assert(env@.map_values(|e: (String, JsonScalar)| (e.0@, e.1@)) =~= seq![
            ("COLORTERM"@, text_or_null(opt_text(s.colorterm))),
            ("NO_COLOR"@, ScalarView::Bool(s.no_color)),
            ("TERM"@, text_or_null(opt_text(s.term))),
        ]);
    }
    let env_observed = Some(Observed::Fields(env));
    push(
        checks,
        owned("terminal.environment"),
        CheckGroup::Terminal,
        owned("Terminal environment"),
        if s.term.is_some() { CheckStatus::Pass } else { CheckStatus::Unknown },
        env_observed,
        "capability is inferred from conventional environment hints, not proven",
        None,
    );
    let color = infer_color(as_opt_str(&s.term), as_opt_str(&s.colorterm), s.no_color);
    push(
        checks,
        owned("terminal.color"),
        CheckGroup::Terminal,
        owned("Likely color level"),
        if color == ColorLevel::Unknown { CheckStatus::Unknown } else { CheckStatus::Pass },
        text_value(owned(color.label())),
        "inferred without emitting a color probe",
        None,
    );
    let unicode = infer_unicode(as_opt_str(&s.locale));
    push(
        checks,
        owned("terminal.unicode"),
        CheckGroup::Terminal,
        owned("Unicode locale likelihood"),
        match unicode {
            Some(true) => CheckStatus::Pass,
            Some(false) => CheckStatus::Warn,
            None => CheckStatus::Unknown,
        },
        match unicode {
            Some(u) => bool_value(u),
            None => None,
        },
        "inferred from locale naming only; ASCII mode remains available",
        None,
    );
    let interactive = s.stdin_tty && s.stdout_tty;
    push(
        checks,
        owned("terminal.interactive"),
        CheckGroup::Terminal,
        owned("Interactive rendering"),
        if interactive { CheckStatus::Pass } else { CheckStatus::Warn },
        bool_value(interactive),
        if interactive {
            "raw input and alternate-screen rendering are plausible"
        } else {
            "use `--snapshot` when input or output is redirected"
        },
        None,
    );
    proof {
        assert(check_views(checks@) =~= start + terminal_section(*s));
    }
}


/// The name of a probe result as reported.
pub open spec fn probe_name(r: ProbeResult) -> Seq<char> {
    match r {
        ProbeResult::Available => "available"@,
        ProbeResult::Restricted => "restricted"@,
        ProbeResult::Missing => "missing"@,
        ProbeResult::Unknown => "unknown"@,
    }
}

/// The name of a probe result as reported.
fn probe_name_text(r: ProbeResult) -> (s: &'static str)
    ensures
        s@ == probe_name(r),
{
    match r {
        ProbeResult::Available => "available",
        ProbeResult::Restricted => "restricted",
        ProbeResult::Missing => "missing",
        ProbeResult::Unknown => "unknown",
    }
}

/// A check that reports a probe result, with the summary given for success.
pub open spec fn probe_check(
    id: Seq<char>,
    group: CheckGroup,
    label: Seq<char>,
    result: ProbeResult,
    pass_summary: Seq<char>,
) -> CheckView {
    check(
        id,
        group,
        label,
        match result {
            ProbeResult::Available => CheckStatus::Pass,
            ProbeResult::Restricted | ProbeResult::Missing => CheckStatus::Warn,
            ProbeResult::Unknown => CheckStatus::Unknown,
        },
        seen_text(probe_name(result)),
        match result {
            ProbeResult::Available => pass_summary,
            ProbeResult::Restricted => "visibility is restricted or partial"@,
            ProbeResult::Missing => "interface is missing"@,
            ProbeResult::Unknown => "condition could not be determined"@,
        },
        None,
    )
}

/// Appends a check that reports a probe result.
fn add_probe_result(
    checks: &mut Vec<DoctorCheck>,
    id: &str,
    group: CheckGroup,
    label: &str,
    result: ProbeResult,
    pass_summary: &str,
)
    ensures
        check_views(final(checks)@) == check_views(old(checks)@).push(
            probe_check(id@, group, label@, result, pass_summary@),
        ),
{
    let (status, summary) = match result {
        ProbeResult::Available => (CheckStatus::Pass, pass_summary),
        ProbeResult::Restricted => (CheckStatus::Warn, "visibility is restricted or partial"),
        ProbeResult::Missing => (CheckStatus::Warn, "interface is missing"),
        ProbeResult::Unknown => (CheckStatus::Unknown, "condition could not be determined"),
    };
    push(
        checks,
        owned(id),
        group,
        owned(label),
        status,
        text_value(owned(probe_name_text(result))),
        summary,
        None,
    );
}

/// A check that one procfs interface is readable.
pub open spec fn proc_file_check(id: Seq<char>, label: Seq<char>, available: bool) -> CheckView {
    check(
        id,
        CheckGroup::Proc,
        label,
        if available { CheckStatus::Pass } else { CheckStatus::Warn },
        seen_bool(available),
        if available {
            "readable"@
        } else {
            "missing or unreadable; process weather may be partial"@
        },
        None,
    )
}

/// The checks about procfs: one that says it does not apply off Linux,
/// otherwise one per interface and the two visibility probes.
pub open spec fn proc_section(s: DiagnosticSnapshot, linux: bool) -> Seq<CheckView> {
    if !linux {
        seq![
            check(
                "proc.platform"@,
                CheckGroup::Proc,
                "Linux procfs"@,
                CheckStatus::NotApplicable,
                None,
                "process weather is Linux-only"@,
                None,
            ),
        ]
    } else {
        seq![
            proc_file_check("proc.root"@, "/proc directory"@, s.proc_root),
            proc_file_check("proc.stat"@, "/proc/stat"@, s.proc_stat),
            proc_file_check("proc.meminfo"@, "/proc/meminfo"@, s.proc_meminfo),
            proc_file_check("proc.self_stat"@, "current process stat"@, s.proc_self_stat),
            proc_file_check("proc.self_io"@, "current process I/O counters"@, s.proc_self_io),
            probe_check(
                "proc.enumeration"@,
                CheckGroup::Proc,
                "Numeric PID enumeration"@,
                s.proc_pids,
                "numeric process directories can be enumerated without printing identities"@,
            ),
            probe_check(
                "proc.visibility"@,
                CheckGroup::Proc,
                "Process visibility"@,
                s.proc_partial_visibility,
                "bounded permission sampling found no hidepid-style restriction"@,
            ),
        ]
    }
}

/// Appends one procfs interface check.
fn push_proc_file(checks: &mut Vec<DoctorCheck>, id: &str, label: &str, available: bool)
    ensures
        check_views(final(checks)@) == check_views(old(checks)@).push(
            proc_file_check(id@, label@, available),
        ),
{
    push(
        checks,
        owned(id),
        CheckGroup::Proc,
        owned(label),
        if available { CheckStatus::Pass } else { CheckStatus::Warn },
        bool_value(available),
        if available {
            "readable"
        } else {
            "missing or unreadable; process weather may be partial"
        },
        None,
    );
}

/// Appends the checks about procfs.
fn add_proc_checks(checks: &mut Vec<DoctorCheck>, s: &DiagnosticSnapshot, linux: bool)
    ensures
        check_views(final(checks)@) == check_views(old(checks)@) + proc_section(*s, linux),
{
    let ghost start = check_views(checks@);
    if !linux {
        push(
            checks,
            owned("proc.platform"),
            CheckGroup::Proc,
            owned("Linux procfs"),
            CheckStatus::NotApplicable,
            None,
            "process weather is Linux-only",
            None,
        );
        proof {
            assert(check_views(checks@) =~= start + proc_section(*s, linux));
        }
        return;
    }
    push_proc_file(checks, "proc.root", "/proc directory", s.proc_root);
    push_proc_file(checks, "proc.stat", "/proc/stat", s.proc_stat);
    push_proc_file(checks, "proc.meminfo", "/proc/meminfo", s.proc_meminfo);
    push_proc_file(checks, "proc.self_stat", "current process stat", s.proc_self_stat);
    push_proc_file(checks, "proc.self_io", "current process I/O counters", s.proc_self_io);
    add_probe_result(
        checks,
        "proc.enumeration",
        CheckGroup::Proc,
        "Numeric PID enumeration",
        s.proc_pids,
        "numeric process directories can be enumerated without printing identities",
    );
    add_probe_result(
        checks,
        "proc.visibility",
        CheckGroup::Proc,
        "Process visibility",
        s.proc_partial_visibility,
        "bounded permission sampling found no hidepid-style restriction",
    );
    proof {
        assert(check_views(checks@) =~= start + proc_section(*s, linux));
    }
}


/// Status, observed name and summary of a tracepoint probe.
pub open spec fn tracepoint_outcome(r: ProbeResult) -> (CheckStatus, Seq<char>, Seq<char>) {
    match r {
        ProbeResult::Available => (
            CheckStatus::Pass,
            "available"@,
            "tracepoint directory is present; attachment was not tested"@,
        ),
        ProbeResult::Restricted => (
            CheckStatus::Unknown,
            "restricted"@,
            "tracepoint root is inaccessible; presence and attachment remain untested"@,
        ),
        ProbeResult::Missing => (CheckStatus::Warn, "missing"@, "tracepoint directory is absent"@),
        ProbeResult::Unknown => (
            CheckStatus::Unknown,
            "unknown"@,
            "tracepoint presence could not be determined"@,
        ),
    }
}

/// The check of one tracepoint of a source.
pub open spec fn tracepoint_check(
    prefix: Seq<char>,
    group: CheckGroup,
    linux: bool,
    name: Seq<char>,
    result: ProbeResult,
) -> CheckView {
    let (status, observed, summary) = tracepoint_outcome(result);
    check(
        prefix + ".tracepoint."@ + name,
        group,
        "tracepoint "@ + name,
        if !linux { CheckStatus::NotApplicable } else { status },
        seen_text(observed),
        summary,
        None,
    )
}

/// The checks of the tracepoints of a source, in the order given.
pub open spec fn tracepoint_checks(
    prefix: Seq<char>,
    group: CheckGroup,
    linux: bool,
    tps: Seq<(String, ProbeResult)>,
) -> Seq<CheckView>
    decreases tps.len(),
{
    if tps.len() == 0 {
        Seq::empty()
    } else {
        tracepoint_checks(prefix, group, linux, tps.drop_last()).push(
            tracepoint_check(prefix, group, linux, tps.last().0@, tps.last().1),
        )
    }
}

/// What the doctor knows about one eBPF source.
pub struct SourceDiagnostic<'a> {
    pub group: CheckGroup,
    pub prefix: &'static str,
    pub label: &'static str,
    pub build: bool,
    pub linux: bool,
    pub supported_architecture: bool,
    pub btf: bool,
    pub collector: bool,
    pub collector_name: &'static str,
    pub tracepoints: &'a Vec<(String, ProbeResult)>,
    pub btf_types: Vec<String>,
}

/// The checks of one eBPF source: its collector, each tracepoint, the BTF
/// layouts it needs and the live attachment that a passive run never makes.
pub open spec fn source_checks(
    group: CheckGroup,
    prefix: Seq<char>,
    label: Seq<char>,
    build: bool,
    linux: bool,
    supported_architecture: bool,
    btf: bool,
    collector: bool,
    collector_name: Seq<char>,
    tracepoints: Seq<(String, ProbeResult)>,
    btf_types: Seq<Seq<char>>,
) -> Seq<CheckView> {
    seq![
        check(
            prefix + ".collector"@,
            group,
            label + " collector"@,
            if !linux {
                CheckStatus::NotApplicable
            } else if collector {
                CheckStatus::Pass
            } else {
                CheckStatus::Warn
            },
            Some(
                ObservedView::Fields(
                    seq![
                        ("executable"@, ScalarView::Bool(collector)),
                        ("name"@, ScalarView::Text(collector_name)),
                    ],
                ),
            ),
            if collector {
                "expected sibling collector is executable"@
            } else {
                "expected sibling collector is absent or not executable"@
            },
            None,
        ),
    ] + tracepoint_checks(prefix, group, linux, tracepoints) + seq![
        check(
            prefix + ".btf_layout"@,
            group,
            label + " BTF layouts"@,
            if !linux || !supported_architecture || !build || !btf {
                CheckStatus::NotApplicable
            } else {
                CheckStatus::NotTested
            },
            Some(ObservedView::Texts(btf_types)),
            "the required CO-RE type layouts are validated only by an explicitly requested live attachment"@,
            None,
        ),
        check(
            prefix + ".live_attachment"@,
            group,
            label + " live attachment"@,
            CheckStatus::NotTested,
            None,
            "passive doctor never attaches probes"@,
            Some("Use `doctor --check-live` only when an immediate attach/detach test is intended."@),
        ),
    ]
}

/// The checks of the source a diagnostic describes.
pub open spec fn source_section(d: SourceDiagnostic) -> Seq<CheckView> {
    source_checks(
        d.group,
        d.prefix@,
        d.label@,
        d.build,
        d.linux,
        d.supported_architecture,
        d.btf,
        d.collector,
        d.collector_name@,
        d.tracepoints@,
        d.btf_types@.map_values(|t: String| t@),
    )
}

/// A literal followed by another literal.
fn joined(a: &str, b: &str) -> (r: String)
    ensures
        r@ == a@ + b@,
{
    let mut r = String::from_str(a);
    r.append(b);
    r
}

/// Appends the checks of one eBPF source.
fn add_source_checks(checks: &mut Vec<DoctorCheck>, source: SourceDiagnostic)
    ensures
        check_views(final(checks)@) == check_views(old(checks)@) + source_section(source),
{
    let ghost start = check_views(checks@);
    let mut fields: Vec<(String, JsonScalar)> = Vec::new();
    fields.push((owned("executable"), JsonScalar::Bool(source.collector)));
    fields.push((owned("name"), JsonScalar::Text(owned(source.collector_name))));
    proof {
        assert(fields@.map_values(|e: (String, JsonScalar)| (e.0@, e.1@)) =~= seq![
            ("executable"@, ScalarView::Bool(source.collector)),
            ("name"@, ScalarView::Text(source.collector_name@)),
        ]);
    }
    push(
        checks,
        joined(source.prefix, ".collector"),
        source.group,
        joined(source.label, " collector"),
        if !source.linux {
            CheckStatus::NotApplicable
        } else if source.collector {
            CheckStatus::Pass
        } else {
            CheckStatus::Warn
        },
        Some(Observed::Fields(fields)),
        if source.collector {
            "expected sibling collector is executable"
        } else {
            "expected sibling collector is absent or not executable"
        },
        None,
    );
    let ghost after_collector = check_views(checks@);
    let tps = source.tracepoints;
    let mut i: usize = 0;
    while i < tps.len()
        invariant
            i <= tps.len(),
            tps == source.tracepoints,
            check_views(checks@) == after_collector + tracepoint_checks(
                source.prefix@,
                source.group,
                source.linux,
                tps@.take(i as int),
            ),
        decreases tps.len() - i,
    {
        let name = &tps[i].0;
        let result = tps[i].1;
        let (status, observed, summary) = match result {
            ProbeResult::Available => (
                CheckStatus::Pass,
                "available",
                "tracepoint directory is present; attachment was not tested",
            ),
            ProbeResult::Restricted => (
                CheckStatus::Unknown,
                "restricted",
                "tracepoint root is inaccessible; presence and attachment remain untested",
            ),
            ProbeResult::Missing => (CheckStatus::Warn, "missing", "tracepoint directory is absent"),
            ProbeResult::Unknown => (
                CheckStatus::Unknown,
                "unknown",
                "tracepoint presence could not be determined",
            ),
        };
        let mut id = joined(source.prefix, ".tracepoint.");
        id.append(name.as_str());
        let mut label = owned("tracepoint ");
        label.append(name.as_str());
        push(
            checks,
            id,
            source.group,
            label,
            if !source.linux { CheckStatus::NotApplicable } else { status },
            text_value(owned(observed)),
            summary,
            None,
        );
        proof {
            assert(tps@.take(i + 1).drop_last() =~= tps@.take(i as int));
        }
        i = i + 1;
    }
    proof {
        assert(tps@.take(tps@.len() as int) =~= tps@);
    }
    let ghost btf_view = source.btf_types@.map_values(|t: String| t@);
    push(
        checks,
        joined(source.prefix, ".btf_layout"),
        source.group,
        joined(source.label, " BTF layouts"),
        if !source.linux || !source.supported_architecture || !source.build || !source.btf {
            CheckStatus::NotApplicable
        } else {
            CheckStatus::NotTested
        },
        Some(Observed::Texts(source.btf_types)),
        "the required CO-RE type layouts are validated only by an explicitly requested live attachment",
        None,
    );
    push(
        checks,
        joined(source.prefix, ".live_attachment"),
        source.group,
        joined(source.label, " live attachment"),
        CheckStatus::NotTested,
        None,
        "passive doctor never attaches probes",
        Some("Use `doctor --check-live` only when an immediate attach/detach test is intended."),
    );
    proof {
        assert(check_views(checks@) =~= start + source_section(source));
    }
}


/// Ring-buffer support inferred from the kernel release, when known.
pub open spec fn ring_support(s: DiagnosticSnapshot) -> Option<bool> {
    match opt_text(s.kernel) {
        Some(k) => ring_buffer_inference(k),
        None => None,
    }
}

/// Status for a three-valued inference: yes passes, no warns.
pub open spec fn tri_status(o: Option<bool>) -> CheckStatus {
    match o {
        Some(true) => CheckStatus::Pass,
        Some(false) => CheckStatus::Warn,
        None => CheckStatus::Unknown,
    }
}

/// The platform-wide eBPF checks, before the per-source ones.
pub open spec fn ebpf_platform_section(s: DiagnosticSnapshot, linux: bool, supported_architecture: bool) -> Seq<CheckView> {
    let unprivileged = opt_text(s.unprivileged_bpf);
    let lockdown = opt_text(s.lockdown);
    let ring = ring_support(s);
    seq![
        check(
            "ebpf.platform"@,
            CheckGroup::Ebpf,
            "Linux platform"@,
            if linux { CheckStatus::Pass } else { CheckStatus::NotApplicable },
            seen_bool(linux),
            if linux {
                "Linux eBPF interfaces may be inspected"@
            } else {
                "eBPF sources are Linux-only"@
            },
            None,
        ),
        check(
            "ebpf.architecture"@,
            CheckGroup::Ebpf,
            "Supported architecture"@,
            if !linux {
                CheckStatus::NotApplicable
            } else if supported_architecture {
                CheckStatus::Pass
            } else {
                CheckStatus::Fail
            },
            seen_text(s.architecture@),
            "current experimental collectors support x86_64 only"@,
            None,
        ),
        check(
            "ebpf.btf"@,
            CheckGroup::Ebpf,
            "Kernel BTF"@,
            if !linux {
                CheckStatus::NotApplicable
            } else if s.btf {
                CheckStatus::Pass
            } else {
                CheckStatus::Warn
            },
            seen_bool(s.btf),
            if s.btf {
                "/sys/kernel/btf/vmlinux is readable"@
            } else {
                "required kernel BTF is absent or unreadable"@
            },
            None,
        ),
        check(
            "ebpf.bpffs"@,
            CheckGroup::Ebpf,
            "BPF filesystem"@,
            if !linux {
                CheckStatus::NotApplicable
            } else if s.bpf_fs {
                CheckStatus::Pass
            } else {
                CheckStatus::Warn
            },
            Some(
                ObservedView::Fields(
                    seq![
                        ("directory"@, ScalarView::Bool(s.bpf_fs)),
                        ("mounted"@, bool_or_null(s.bpf_fs_mounted)),
                    ],
                ),
            ),
            "presence is passive information; Synesthesia does not pin objects"@,
            None,
        ),
        check(
            "ebpf.tracefs"@,
            CheckGroup::Ebpf,
            "Tracepoint filesystem"@,
            if !linux {
                CheckStatus::NotApplicable
            } else {
                match s.trace_visibility {
                    ProbeResult::Available => CheckStatus::Pass,
                    ProbeResult::Restricted | ProbeResult::Missing => CheckStatus::Warn,
                    ProbeResult::Unknown => CheckStatus::Unknown,
                }
            },
            seen_text(probe_name(s.trace_visibility)),
            if s.trace_visibility == ProbeResult::Restricted {
                "tracepoint root exists but is inaccessible to the current identity; kernel support is not disproven"@
            } else {
                "checked the standard tracefs and debugfs tracepoint roots"@
            },
            None,
        ),
        check(
            "ebpf.unprivileged_policy"@,
            CheckGroup::Ebpf,
            "Unprivileged BPF policy"@,
            if !linux {
                CheckStatus::NotApplicable
            } else {
                match unprivileged {
                    Some(v) => if v == "0"@ { CheckStatus::Pass } else { CheckStatus::Warn },
                    None => CheckStatus::Unknown,
                }
            },
            match unprivileged { Some(v) => seen_text(v), None => None },
            match unprivileged {
                Some(v) => if v == "0"@ {
                    "kernel policy permits unprivileged BPF requests; other controls still apply"@
                } else {
                    "kernel policy restricts unprivileged BPF; external privilege is likely required"@
                },
                None => "policy was not readable"@,
            },
            None,
        ),
        check(
            "ebpf.lockdown"@,
            CheckGroup::Ebpf,
            "Kernel lockdown"@,
            match lockdown {
                Some(v) => if v == "none"@ { CheckStatus::Pass } else { CheckStatus::Warn },
                None => CheckStatus::Unknown,
            },
            match lockdown { Some(v) => seen_text(v), None => None },
            "lockdown can restrict BPF even when other prerequisites are present"@,
            None,
        ),
        check(
            "ebpf.ring_buffer"@,
            CheckGroup::Ebpf,
            "Ring-buffer support"@,
            tri_status(ring),
            match ring { Some(r) => seen_bool(r), None => None },
            "inferred from kernel release (5.8 or newer); only attachment can prove availability"@,
            None,
        ),
        check(
            "ebpf.identity"@,
            CheckGroup::Ebpf,
            "Likely BPF privilege"@,
            tri_status(privilege_inference(s.effective_root, s.effective_bpf_caps)),
            Some(
                ObservedView::Fields(
                    seq![
                        ("effective_root"@, bool_or_null(s.effective_root)),
                        ("relevant_capabilities"@, bool_or_null(s.effective_bpf_caps)),
                    ],
                ),
            ),
            "root or relevant effective capabilities may permit attachment; verifier acceptance is never guaranteed"@,
            Some("Synesthesia never escalates. Supply suitable privilege externally if you choose to run an eBPF mode."@),
        ),
    ]
}

/// Status for a three-valued inference: yes passes, no warns.
fn tri_status_of(o: Option<bool>) -> (c: CheckStatus)
    ensures
        c == tri_status(o),
{
    match o {
        Some(true) => CheckStatus::Pass,
        Some(false) => CheckStatus::Warn,
        None => CheckStatus::Unknown,
    }
}

/// Appends the platform-wide eBPF checks.
#[verifier::rlimit(60)]
fn add_ebpf_platform_checks(
    checks: &mut Vec<DoctorCheck>,
    s: &DiagnosticSnapshot,
    linux: bool,
    supported_architecture: bool,
)
    ensures
        check_views(final(checks)@) == check_views(old(checks)@) + ebpf_platform_section(
            *s,
            linux,
            supported_architecture,
        ),
{
    let ghost start = check_views(checks@);
    push(
        checks,
        owned("ebpf.platform"),
        CheckGroup::Ebpf,
        owned("Linux platform"),
        if linux { CheckStatus::Pass } else { CheckStatus::NotApplicable },
        bool_value(linux),
        if linux {
            "Linux eBPF interfaces may be inspected"
        } else {
            "eBPF sources are Linux-only"
        },
        None,
    );
    push(
        checks,
        owned("ebpf.architecture"),
        CheckGroup::Ebpf,
        owned("Supported architecture"),
        if !linux {
            CheckStatus::NotApplicable
        } else if supported_architecture {
            CheckStatus::Pass
        } else {
            CheckStatus::Fail
        },
        text_value(s.architecture.clone()),
        "current experimental collectors support x86_64 only",
        None,
    );
    push(
        checks,
        owned("ebpf.btf"),
        CheckGroup::Ebpf,
        owned("Kernel BTF"),
        if !linux {
            CheckStatus::NotApplicable
        } else if s.btf {
            CheckStatus::Pass
        } else {
            CheckStatus::Warn
        },
        bool_value(s.btf),
        if s.btf {
            "/sys/kernel/btf/vmlinux is readable"
        } else {
            "required kernel BTF is absent or unreadable"
        },
        None,
    );
    let mut bpffs: Vec<(String, JsonScalar)> = Vec::new();
    bpffs.push((owned("directory"), JsonScalar::Bool(s.bpf_fs)));
    bpffs.push((owned("mounted"), bool_or_null_value(s.bpf_fs_mounted)));
    proof {
        assert(bpffs@.map_values(|e: (String, JsonScalar)| (e.0@, e.1@)) =~= seq![
            ("directory"@, ScalarView::Bool(s.bpf_fs)),
            ("mounted"@, bool_or_null(s.bpf_fs_mounted)),
        ]);
    }
    push(
        checks,
        owned("ebpf.bpffs"),
        CheckGroup::Ebpf,
        owned("BPF filesystem"),
        if !linux {
            CheckStatus::NotApplicable
        } else if s.bpf_fs {
            CheckStatus::Pass
        } else {
            CheckStatus::Warn
        },
        Some(Observed::Fields(bpffs)),
        "presence is passive information; Synesthesia does not pin objects",
        None,
    );
    let tv = s.trace_visibility;
    push(
        checks,
        owned("ebpf.tracefs"),
        CheckGroup::Ebpf,
        owned("Tracepoint filesystem"),
        if !linux {
            CheckStatus::NotApplicable
        } else {
            match tv {
                ProbeResult::Available => CheckStatus::Pass,
                ProbeResult::Restricted | ProbeResult::Missing => CheckStatus::Warn,
                ProbeResult::Unknown => CheckStatus::Unknown,
            }
        },
        text_value(owned(probe_name_text(tv))),
        if tv == ProbeResult::Restricted {
            "tracepoint root exists but is inaccessible to the current identity; kernel support is not disproven"
        } else {
            "checked the standard tracefs and debugfs tracepoint roots"
        },
        None,
    );
    let (policy, policy_summary, policy_observed) = match &s.unprivileged_bpf {
        Some(v) => {
            if str_eq(v.as_str(), "0") {
                (
                    CheckStatus::Pass,
                    "kernel policy permits unprivileged BPF requests; other controls still apply",
                    text_value(v.clone()),
                )
            } else {
                (
                    CheckStatus::Warn,
                    "kernel policy restricts unprivileged BPF; external privilege is likely required",
                    text_value(v.clone()),
                )
            }
        },
        None => (CheckStatus::Unknown, "policy was not readable", None),
    };
    push(
        checks,
        owned("ebpf.unprivileged_policy"),
        CheckGroup::Ebpf,
        owned("Unprivileged BPF policy"),
        if linux { policy } else { CheckStatus::NotApplicable },
        policy_observed,
        policy_summary,
        None,
    );
    let (lockdown_status, lockdown_observed) = match &s.lockdown {
        Some(v) => {
            if str_eq(v.as_str(), "none") {
                (CheckStatus::Pass, text_value(v.clone()))
            } else {
                (CheckStatus::Warn, text_value(v.clone()))
            }
        },
        None => (CheckStatus::Unknown, None),
    };
    push(
        checks,
        owned("ebpf.lockdown"),
        CheckGroup::Ebpf,
        owned("Kernel lockdown"),
        lockdown_status,
        lockdown_observed,
        "lockdown can restrict BPF even when other prerequisites are present",
        None,
    );
    let ring = match &s.kernel {
        Some(k) => kernel_likely_has_ring_buffer(k.as_str()),
        None => None,
    };
    push(
        checks,
        owned("ebpf.ring_buffer"),
        CheckGroup::Ebpf,
        owned("Ring-buffer support"),
        tri_status_of(ring),
        match ring {
            Some(r) => bool_value(r),
            None => None,
        },
        "inferred from kernel release (5.8 or newer); only attachment can prove availability",
        None,
    );
    let mut identity: Vec<(String, JsonScalar)> = Vec::new();
    identity.push((owned("effective_root"), bool_or_null_value(s.effective_root)));
    identity.push((owned("relevant_capabilities"), bool_or_null_value(s.effective_bpf_caps)));
    proof {
        assert(identity@.map_values(|e: (String, JsonScalar)| (e.0@, e.1@)) =~= seq![
            ("effective_root"@, bool_or_null(s.effective_root)),
            ("relevant_capabilities"@, bool_or_null(s.effective_bpf_caps)),
        ]);
    }
    push(
        checks,
        owned("ebpf.identity"),
        CheckGroup::Ebpf,
        owned("Likely BPF privilege"),
        tri_status_of(privilege_from_identity(s.effective_root, s.effective_bpf_caps)),
        Some(Observed::Fields(identity)),
        "root or relevant effective capabilities may permit attachment; verifier acceptance is never guaranteed",
        Some(
            "Synesthesia never escalates. Supply suitable privilege externally if you choose to run an eBPF mode.",
        ),
    );
    proof {
        assert(check_views(checks@) =~= start + ebpf_platform_section(*s, linux, supported_architecture));
    }
}

/// The eBPF checks: platform-wide, then the scheduler and TCP sources.
pub open spec fn ebpf_section(s: DiagnosticSnapshot, linux: bool, supported_architecture: bool, build: bool) -> Seq<CheckView> {
    ebpf_platform_section(s, linux, supported_architecture) + source_checks(
        CheckGroup::Scheduler,
        "scheduler"@,
        "Scheduler"@,
        build,
        linux,
        supported_architecture,
        s.btf,
        s.scheduler_collector,
        SCHEDULER_COLLECTOR@,
        s.scheduler_tracepoints@,
        scheduler_btf_type_names(),
    ) + source_checks(
        CheckGroup::Tcp,
        "tcp"@,
        "TCP"@,
        build,
        linux,
        supported_architecture,
        s.btf,
        s.tcp_collector,
        TCP_COLLECTOR@,
        s.tcp_tracepoints@,
        tcp_btf_type_names(),
    )
}

/// Appends the eBPF checks.
fn add_ebpf_checks(
    checks: &mut Vec<DoctorCheck>,
    s: &DiagnosticSnapshot,
    linux: bool,
    supported_architecture: bool,
    build: bool,
)
    ensures
        check_views(final(checks)@) == check_views(old(checks)@) + ebpf_section(
            *s,
            linux,
            supported_architecture,
            build,
        ),
{
    let ghost start = check_views(checks@);
    add_ebpf_platform_checks(checks, s, linux, supported_architecture);
    let ghost mid = check_views(checks@);
    add_source_checks(
        checks,
        SourceDiagnostic {
            group: CheckGroup::Scheduler,
            prefix: "scheduler",
            label: "Scheduler",
            build,
            linux,
            supported_architecture,
            btf: s.btf,
            collector: s.scheduler_collector,
            collector_name: SCHEDULER_COLLECTOR,
            tracepoints: &s.scheduler_tracepoints,
            btf_types: scheduler_btf_types(),
        },
    );
    let ghost mid2 = check_views(checks@);
    add_source_checks(
        checks,
        SourceDiagnostic {
            group: CheckGroup::Tcp,
            prefix: "tcp",
            label: "TCP",
            build,
            linux,
            supported_architecture,
            btf: s.btf,
            collector: s.tcp_collector,
            collector_name: TCP_COLLECTOR,
            tracepoints: &s.tcp_tracepoints,
            btf_types: tcp_btf_types(),
        },
    );
    proof {
        assert(check_views(checks@) =~= start + ebpf_section(*s, linux, supported_architecture, build));
    }
}


/// Every tracepoint is available.
pub open spec fn all_available(tps: Seq<(String, ProbeResult)>) -> bool {
    forall|i: int| 0 <= i < tps.len() ==> (#[trigger] tps[i]).1 == ProbeResult::Available
}

/// Some tracepoint is restricted.
pub open spec fn any_restricted(tps: Seq<(String, ProbeResult)>) -> bool {
    exists|i: int| 0 <= i < tps.len() && (#[trigger] tps[i]).1 == ProbeResult::Restricted
}

/// Whether every tracepoint is available, and whether some is restricted.
fn tracepoint_summary(tps: &Vec<(String, ProbeResult)>) -> (r: (bool, bool))
    ensures
        r.0 == all_available(tps@),
        r.1 == any_restricted(tps@),
{
    let mut all = true;
    let mut any = false;
    let mut i: usize = 0;
    while i < tps.len()
        invariant
            i <= tps.len(),
            all == (forall|j: int| 0 <= j < i ==> (#[trigger] tps@[j]).1 == ProbeResult::Available),
            any == (exists|j: int| 0 <= j < i && (#[trigger] tps@[j]).1 == ProbeResult::Restricted),
        decreases tps.len() - i,
    {
        let r = tps[i].1;
        if r != ProbeResult::Available {
            all = false;
        }
        if r == ProbeResult::Restricted {
            any = true;
        }
        i = i + 1;
    }
    (all, any)
}

/// Platform facts of a report.
#[derive(Clone, Debug)]
pub struct PlatformReport {
    pub os: String,
    pub architecture: String,
    pub kernel: String,
    pub libc: String,
}

/// A complete doctor report.
#[derive(Clone, Debug)]
pub struct DoctorReport {
    pub schema_version: u32,
    pub synesthesia_version: String,
    pub git_commit: String,
    pub platform: PlatformReport,
    pub checks: Vec<DoctorCheck>,
    /// The readiness of each mode, by mode name in ascending order.
    pub mode_summary: Vec<(String, ModeAvailability)>,
    pub privacy_notice: String,
}

/// The mode summary as pairs of name and readiness.
pub open spec fn mode_views(m: Seq<(String, ModeAvailability)>) -> Seq<(Seq<char>, ModeAvailability)> {
    m.map_values(|e: (String, ModeAvailability)| (e.0@, e.1))
}

/// Whether the architecture is the supported one.
pub open spec fn architecture_supported(s: DiagnosticSnapshot) -> bool {
    s.architecture@ == SUPPORTED_ARCHITECTURE@
}

/// Every check of the report for a snapshot, in report order.
pub open spec fn expected_checks(s: DiagnosticSnapshot) -> Seq<CheckView> {
    build_section(s) + terminal_section(s) + proc_section(s, on_linux(s)) + ebpf_section(
        s,
        on_linux(s),
        architecture_supported(s),
        s.ebpf_build,
    )
}

/// The readiness of process weather.
pub open spec fn proc_readiness(s: DiagnosticSnapshot) -> ModeAvailability {
    if !on_linux(s) {
        ModeAvailability::UnsupportedPlatform
    } else if s.proc_stat && s.proc_meminfo && s.proc_self_stat && s.proc_pids == ProbeResult::Available {
        ModeAvailability::Available
    } else {
        ModeAvailability::MissingPrerequisite
    }
}

/// The readiness of the scheduler source.
pub open spec fn scheduler_readiness(s: DiagnosticSnapshot) -> ModeAvailability {
    ebpf_readiness(
        on_linux(s),
        architecture_supported(s),
        s.ebpf_build,
        s.btf,
        s.scheduler_collector,
        all_available(s.scheduler_tracepoints@),
        any_restricted(s.scheduler_tracepoints@),
        privilege_inference(s.effective_root, s.effective_bpf_caps),
    )
}

/// The readiness of the TCP source.
pub open spec fn tcp_readiness(s: DiagnosticSnapshot) -> ModeAvailability {
    ebpf_readiness(
        on_linux(s),
        architecture_supported(s),
        s.ebpf_build,
        s.btf,
        s.tcp_collector,
        all_available(s.tcp_tracepoints@),
        any_restricted(s.tcp_tracepoints@),
        privilege_inference(s.effective_root, s.effective_bpf_caps),
    )
}

/// The mode summary for a snapshot, by mode name in ascending order.
pub open spec fn expected_modes(s: DiagnosticSnapshot) -> Seq<(Seq<char>, ModeAvailability)> {
    seq![
        ("demo"@, ModeAvailability::Available),
        ("proc"@, proc_readiness(s)),
        ("replay"@, ModeAvailability::Available),
        ("scheduler"@, scheduler_readiness(s)),
        ("schema"@, ModeAvailability::Available),
        ("stdin"@, ModeAvailability::Available),
        ("tcp"@, tcp_readiness(s)),
    ]
}

/// An optional text, or `unknown`.
pub open spec fn text_or_unknown(o: Option<Seq<char>>) -> Seq<char> {
    match o {
        Some(t) => t,
        None => "unknown"@,
    }
}

/// The report for a snapshot, field by field.
pub open spec fn report_of(r: DoctorReport, s: DiagnosticSnapshot) -> bool {
    &&& r.schema_version == DOCTOR_SCHEMA_VERSION
    &&& r.synesthesia_version@ == s.version@
    &&& r.git_commit@ == text_or_unknown(opt_text(s.git_commit))
    &&& r.platform.os@ == s.os@
    &&& r.platform.architecture@ == s.architecture@
    &&& r.platform.kernel@ == text_or_unknown(opt_text(s.kernel))
    &&& r.platform.libc@ == libc_text(s.target_env@)
    &&& check_views(r.checks@) == expected_checks(s)
    &&& mode_views(r.mode_summary@) == expected_modes(s)
    &&& r.privacy_notice@ == PRIVACY_NOTICE@
}

/// A copy of an optional string, or `unknown`.
fn or_unknown(o: &Option<String>) -> (r: String)
    ensures
        r@ == text_or_unknown(opt_text(*o)),
{
    match o {
        Some(t) => t.clone(),
        None => owned("unknown"),
    }
}

/// Builds the report for a snapshot: every check in order, the readiness
/// of each mode, and the platform facts.
pub fn build_report(s: &DiagnosticSnapshot) -> (r: DoctorReport)
    ensures
        report_of(r, *s),
{
    let mut checks: Vec<DoctorCheck> = Vec::new();
    let linux = is_linux(s);
    let supported_architecture = str_eq(s.architecture.as_str(), SUPPORTED_ARCHITECTURE);
    let build = s.ebpf_build;
    proof {
        assert(check_views(checks@) =~= Seq::<CheckView>::empty());
    }
    add_build_checks(&mut checks, s);
    add_terminal_checks(&mut checks, s);
    add_proc_checks(&mut checks, s, linux);
    add_ebpf_checks(&mut checks, s, linux, supported_architecture, build);
    proof {
        assert(check_views(checks@) =~= expected_checks(*s));
    }
    let proc_ready = linux && s.proc_stat && s.proc_meminfo && s.proc_self_stat && s.proc_pids
        == ProbeResult::Available;
    let privilege = privilege_from_identity(s.effective_root, s.effective_bpf_caps);
    let (scheduler_all, scheduler_restricted) = tracepoint_summary(&s.scheduler_tracepoints);
    let scheduler = ebpf_mode(
        linux,
        supported_architecture,
        build,
        s.btf,
        s.scheduler_collector,
        scheduler_all,
        scheduler_restricted,
        privilege,
    );
    let (tcp_all, tcp_restricted) = tracepoint_summary(&s.tcp_tracepoints);
    let tcp = ebpf_mode(
        linux,
        supported_architecture,
        build,
        s.btf,
        s.tcp_collector,
        tcp_all,
        tcp_restricted,
        privilege,
    );
    let mut modes: Vec<(String, ModeAvailability)> = Vec::new();
    modes.push((owned("demo"), ModeAvailability::Available));
    modes.push(
        (
            owned("proc"),
            if !linux {
                ModeAvailability::UnsupportedPlatform
            } else if proc_ready {
                ModeAvailability::Available
            } else {
                ModeAvailability::MissingPrerequisite
            },
        ),
    );
    modes.push((owned("replay"), ModeAvailability::Available));
    modes.push((owned("scheduler"), scheduler));
    modes.push((owned("schema"), ModeAvailability::Available));
    modes.push((owned("stdin"), ModeAvailability::Available));
    modes.push((owned("tcp"), tcp));
    proof {
        assert(mode_views(modes@) =~= expected_modes(*s));
    }
    DoctorReport {
        schema_version: DOCTOR_SCHEMA_VERSION,
        synesthesia_version: s.version.clone(),
        git_commit: or_unknown(&s.git_commit),
        platform: PlatformReport {
            os: s.os.clone(),
            architecture: s.architecture.clone(),
            kernel: or_unknown(&s.kernel),
            libc: libc_description(s.target_env.as_str()),
        },
        checks,
        mode_summary: modes,
        privacy_notice: owned(PRIVACY_NOTICE),
    }
}

/// The readiness recorded for a mode name: the first entry with that name.
pub open spec fn mode_lookup(m: Seq<(Seq<char>, ModeAvailability)>, name: Seq<char>) -> Option<ModeAvailability>
    decreases m.len(),
{
    if m.len() == 0 {
        None
    } else if m[0].0 == name {
        Some(m[0].1)
    } else {
        mode_lookup(m.drop_first(), name)
    }
}

impl DoctorReport {
    /// The readiness of the named mode, if the summary lists it.
    pub fn mode(&self, name: &str) -> (r: Option<ModeAvailability>)
        ensures
            r == mode_lookup(mode_views(self.mode_summary@), name@),
    {
        let ghost m = mode_views(self.mode_summary@);
        proof {
            assert(m.subrange(0, m.len() as int) =~= m);
        }
        let mut i: usize = 0;
        while i < self.mode_summary.len()
            invariant
                i <= self.mode_summary.len(),
                m == mode_views(self.mode_summary@),
                mode_lookup(m, name@) == mode_lookup(m.subrange(i as int, m.len() as int), name@),
            decreases self.mode_summary.len() - i,
        {
            proof {
                assert(m.subrange(i as int, m.len() as int).drop_first() =~= m.subrange(i + 1, m.len() as int));
            }
            if str_eq(self.mode_summary[i].0.as_str(), name) {
                return Some(self.mode_summary[i].1);
            }
            i = i + 1;
        }
        None
    }
}


/// The live-attachment check of a source's checks is their last one.
proof fn lemma_live_attachment_last(
    group: CheckGroup,
    prefix: Seq<char>,
    label: Seq<char>,
    build: bool,
    linux: bool,
    supported_architecture: bool,
    btf: bool,
    collector: bool,
    collector_name: Seq<char>,
    tracepoints: Seq<(String, ProbeResult)>,
    btf_types: Seq<Seq<char>>,
)
    ensures
        ({
            let c = source_checks(
                group,
                prefix,
                label,
                build,
                linux,
                supported_architecture,
                btf,
                collector,
                collector_name,
                tracepoints,
                btf_types,
            );
            &&& c.len() >= 1
            &&& c.last().id == prefix + ".live_attachment"@
            &&& c.last().status == CheckStatus::NotTested
        }),
{
}

/// Law: a passive report never attaches probes: whatever the snapshot, its
/// checks include the scheduler's and the TCP source's live attachment,
/// both marked not tested.
pub proof fn law_passive_report_never_attaches(s: DiagnosticSnapshot)
    ensures
        exists|i: int|
            0 <= i < expected_checks(s).len() && #[trigger] expected_checks(s)[i].id == "scheduler.live_attachment"@
                && expected_checks(s)[i].status == CheckStatus::NotTested,
        exists|i: int|
            0 <= i < expected_checks(s).len() && #[trigger] expected_checks(s)[i].id == "tcp.live_attachment"@
                && expected_checks(s)[i].status == CheckStatus::NotTested,
{
    let linux = on_linux(s);
    let arch = architecture_supported(s);
    let build = s.ebpf_build;
    let head = build_section(s) + terminal_section(s) + proc_section(s, linux) + ebpf_platform_section(s, linux, arch);
    let sched = source_checks(
        CheckGroup::Scheduler,
        "scheduler"@,
        "Scheduler"@,
        build,
        linux,
        arch,
        s.btf,
        s.scheduler_collector,
        SCHEDULER_COLLECTOR@,
        s.scheduler_tracepoints@,
        scheduler_btf_type_names(),
    );
    let tcp = source_checks(
        CheckGroup::Tcp,
        "tcp"@,
        "TCP"@,
        build,
        linux,
        arch,
        s.btf,
        s.tcp_collector,
        TCP_COLLECTOR@,
        s.tcp_tracepoints@,
        tcp_btf_type_names(),
    );
    lemma_live_attachment_last(
        CheckGroup::Scheduler,
        "scheduler"@,
        "Scheduler"@,
        build,
        linux,
        arch,
        s.btf,
        s.scheduler_collector,
        SCHEDULER_COLLECTOR@,
        s.scheduler_tracepoints@,
        scheduler_btf_type_names(),
    );
    lemma_live_attachment_last(
        CheckGroup::Tcp,
        "tcp"@,
        "TCP"@,
        build,
        linux,
        arch,
        s.btf,
        s.tcp_collector,
        TCP_COLLECTOR@,
        s.tcp_tracepoints@,
        tcp_btf_type_names(),
    );
    let all = expected_checks(s);
    assert(all =~= head + sched + tcp);
    reveal_strlit("scheduler");
    reveal_strlit("tcp");
    reveal_strlit(".live_attachment");
    reveal_strlit("scheduler.live_attachment");
    reveal_strlit("tcp.live_attachment");
    assert("scheduler"@ + ".live_attachment"@ =~= "scheduler.live_attachment"@);
    assert("tcp"@ + ".live_attachment"@ =~= "tcp.live_attachment"@);
    let i = head.len() + sched.len() - 1;
    assert(all[i] == sched.last());
    let j = head.len() + sched.len() + tcp.len() - 1;
    assert(all[j] == tcp.last());
}

} // verus!
