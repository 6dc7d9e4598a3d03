//! Passive installation diagnostics: readiness decisions, environment
//! inference and the report built from an observed snapshot.
use vstd::prelude::*;

pub mod probe;
pub mod render;
pub mod report;

use crate::parse::{parse_unsigned, parse_unsigned_exec, unicode_words, unicode_words_of};
use crate::text::{
    ascii_lower, chars_contain, chars_of, contains_seq, ends_with, str_ends_with, str_eq,
    string_from_range, to_ascii_lower,
};

verus! {

/// Version of the JSON report layout.
pub const DOCTOR_SCHEMA_VERSION: u32 = 1;

/// What every report says about the data it leaves out.
pub const PRIVACY_NOTICE: &'static str = "This report does not include process arguments, environment contents, network endpoints, or captured activity.";

/// Outcome of one check.
#[derive(Clone, Copy, Debug, PartialEq, Eq, Structural)]
pub enum CheckStatus {
    Pass,
    Warn,
    Fail,
    Unknown,
    NotApplicable,
    NotTested,
}

/// Report section of a check.
#[derive(Clone, Copy, Debug, PartialEq, Eq, Structural)]
pub enum CheckGroup {
    Build,
    Terminal,
    Proc,
    Ebpf,
    Scheduler,
    Tcp,
}

/// Section heading of a group.
pub open spec fn group_label(group: CheckGroup) -> Seq<char> {
    match group {
        CheckGroup::Build => "Build and platform"@,
        CheckGroup::Terminal => "Terminal"@,
        CheckGroup::Proc => "/proc"@,
        CheckGroup::Ebpf => "eBPF prerequisites"@,
        CheckGroup::Scheduler => "Scheduler source"@,
        CheckGroup::Tcp => "TCP pathology source"@,
    }
}

impl CheckGroup {
    /// Section heading of the group.
    pub fn label(self) -> (s: &'static str)
        ensures
            s@ == group_label(self),
    {
        match self {
            CheckGroup::Build => "Build and platform",
            CheckGroup::Terminal => "Terminal",
            CheckGroup::Proc => "/proc",
            CheckGroup::Ebpf => "eBPF prerequisites",
            CheckGroup::Scheduler => "Scheduler source",
            CheckGroup::Tcp => "TCP pathology source",
        }
    }
}

/// Readiness of a mode.
#[derive(Clone, Copy, Debug, PartialEq, Eq, Structural)]
pub enum ModeAvailability {
    Available,
    AvailableWithLimitations,
    UnsupportedPlatform,
    MissingPrerequisite,
    PermissionRequired,
    NotIncludedInBuild,
    Unknown,
}

/// Text shown for a mode readiness.
pub open spec fn availability_text(m: ModeAvailability) -> Seq<char> {
    match m {
        ModeAvailability::Available => "ready"@,
        ModeAvailability::AvailableWithLimitations => "prerequisites present; live attachment not tested"@,
        ModeAvailability::UnsupportedPlatform => "unsupported platform"@,
        ModeAvailability::MissingPrerequisite => "missing prerequisite"@,
        ModeAvailability::PermissionRequired => "prerequisites present; external privilege required"@,
        ModeAvailability::NotIncludedInBuild => "not included in this build"@,
        ModeAvailability::Unknown => "unknown"@,
    }
}

impl ModeAvailability {
    /// Text shown for the readiness.
    pub fn text(self) -> (s: &'static str)
        ensures
            s@ == availability_text(self),
    {
        match self {
            ModeAvailability::Available => "ready",
            ModeAvailability::AvailableWithLimitations => "prerequisites present; live attachment not tested",
            ModeAvailability::UnsupportedPlatform => "unsupported platform",
            ModeAvailability::MissingPrerequisite => "missing prerequisite",
            ModeAvailability::PermissionRequired => "prerequisites present; external privilege required",
            ModeAvailability::NotIncludedInBuild => "not included in this build",
            ModeAvailability::Unknown => "unknown",
        }
    }
}

/// Likely terminal color support.
#[derive(Clone, Copy, Debug, PartialEq, Eq, Structural)]
pub enum ColorLevel {
    Monochrome,
    Ansi16,
    Ansi256,
    Truecolor,
    Unknown,
}

/// Text shown for a color level.
pub open spec fn color_label(c: ColorLevel) -> Seq<char> {
    match c {
        ColorLevel::Monochrome => "monochrome"@,
        ColorLevel::Ansi16 => "ANSI 16 (inferred)"@,
        ColorLevel::Ansi256 => "ANSI 256 (inferred)"@,
        ColorLevel::Truecolor => "truecolor (inferred)"@,
        ColorLevel::Unknown => "unknown"@,
    }
}

impl ColorLevel {
    /// Text shown for the level.
    pub fn label(self) -> (s: &'static str)
        ensures
            s@ == color_label(self),
    {
        match self {
            ColorLevel::Monochrome => "monochrome",
            ColorLevel::Ansi16 => "ANSI 16 (inferred)",
            ColorLevel::Ansi256 => "ANSI 256 (inferred)",
            ColorLevel::Truecolor => "truecolor (inferred)",
            ColorLevel::Unknown => "unknown",
        }
    }
}

/// Result of a passive probe.
#[derive(Clone, Copy, Debug, PartialEq, Eq, Structural)]
pub enum ProbeResult {
    Available,
    Restricted,
    Missing,
    Unknown,
}

/// The optional text of an optional string slice.
pub open spec fn opt_view(s: Option<&str>) -> Option<Seq<char>> {
    match s {
        Some(t) => Some(t@),
        None => None,
    }
}

/// The color level inferred from `TERM`, `COLORTERM` and `NO_COLOR`:
/// `NO_COLOR` or a dumb terminal mean monochrome; a `COLORTERM` naming
/// truecolor or 24bit (any case) means truecolor; a `TERM` containing
/// 256color means 256 colors; any other `TERM` 16 colors.
pub open spec fn color_inference(term: Option<Seq<char>>, colorterm: Option<Seq<char>>, no_color: bool) -> ColorLevel {
    if no_color || term == Some("dumb"@) {
        ColorLevel::Monochrome
    } else if colorterm is Some && (contains_seq(ascii_lower(colorterm.unwrap()), "truecolor"@)
        || contains_seq(ascii_lower(colorterm.unwrap()), "24bit"@)) {
        ColorLevel::Truecolor
    } else if term is Some && contains_seq(term.unwrap(), "256color"@) {
        ColorLevel::Ansi256
    } else if term is Some {
        ColorLevel::Ansi16
    } else {
        ColorLevel::Unknown
    }
}

/// Infers the color level without probing the terminal.
pub fn infer_color(term: Option<&str>, colorterm: Option<&str>, no_color: bool) -> (c: ColorLevel)
    ensures
        c == color_inference(opt_view(term), opt_view(colorterm), no_color),
{
    let dumb = match term {
        Some(t) => str_eq(t, "dumb"),
        None => false,
    };
    if no_color || dumb {
        return ColorLevel::Monochrome;
    }
    match colorterm {
        Some(value) => {
            let lower = to_ascii_lower(value);
            if chars_contain(&lower, "truecolor") || chars_contain(&lower, "24bit") {
                return ColorLevel::Truecolor;
            }
        },
        None => {},
    }
    match term {
        Some(t) => {
            if crate::text::str_contains(t, "256color") {
                ColorLevel::Ansi256
            } else {
                ColorLevel::Ansi16
            }
        },
        None => ColorLevel::Unknown,
    }
}

/// Whether the locale name suggests UTF-8 (`utf-8` or `utf8`, any case).
pub open spec fn unicode_inference(locale: Option<Seq<char>>) -> Option<bool> {
    match locale {
        Some(l) => Some(contains_seq(ascii_lower(l), "utf-8"@) || contains_seq(ascii_lower(l), "utf8"@)),
        None => None,
    }
}

/// Infers Unicode support from the locale name only.
pub fn infer_unicode(locale: Option<&str>) -> (r: Option<bool>)
    ensures
        r == unicode_inference(opt_view(locale)),
{
    match locale {
        Some(value) => {
            let lower = to_ascii_lower(value);
            Some(chars_contain(&lower, "utf-8") || chars_contain(&lower, "utf8"))
        },
        None => None,
    }
}

/// Environment text without control characters, at most `limit` characters.
pub fn sanitize_value(value: &str, limit: usize) -> (s: String)
    ensures
        s@ == crate::text::bounded_text(value@, limit as nat),
{
    crate::text::bounded_text_exec(value, limit)
}

/// A bracketed word `[x]` selects `x`.
pub open spec fn bracketed(w: Seq<char>) -> bool {
    w.len() >= 2 && w[0] == '[' && w.last() == ']'
}

/// Index of the first bracketed word, or `ws.len()`.
pub open spec fn first_bracketed(ws: Seq<Seq<char>>) -> int
    decreases ws.len(),
{
    if ws.len() == 0 {
        0
    } else if bracketed(ws[0]) {
        0
    } else {
        1 + first_bracketed(ws.drop_first())
    }
}

proof fn lemma_first_bracketed(ws: Seq<Seq<char>>, i: int)
    requires
        0 <= i <= ws.len(),
        forall|j: int| 0 <= j < i ==> !bracketed(#[trigger] ws[j]),
        i < ws.len() ==> bracketed(ws[i]),
    ensures
        first_bracketed(ws) == i,
    decreases ws.len(),
{
    if ws.len() > 0 && i > 0 {
        assert forall|j: int| 0 <= j < i - 1 implies !bracketed(#[trigger] ws.drop_first()[j]) by {
            assert(ws.drop_first()[j] == ws[j + 1]);
        }
        lemma_first_bracketed(ws.drop_first(), i - 1);
    }
}

/// The active lockdown mode: the first whitespace-separated word written
/// in brackets, without them, or `unknown`.
pub open spec fn lockdown_selection(value: Seq<char>) -> Seq<char> {
    let ws = unicode_words(value);
    let i = first_bracketed(ws);
    if i < ws.len() {
        ws[i].subrange(1, ws[i].len() - 1)
    } else {
        "unknown"@
    }
}

/// Picks the bracketed (active) entry of the kernel lockdown file.
pub fn selected_lockdown(value: &str) -> (s: String)
    ensures
        s@ == lockdown_selection(value@),
{
    let chars = chars_of(value);
    let ws = unicode_words_of(&chars);
    let ghost w = ws@.map_values(|x: Vec<char>| x@);
    let mut i: usize = 0;
    while i < ws.len()
        invariant
            i <= ws.len(),
            w == ws@.map_values(|x: Vec<char>| x@),
            w == unicode_words(value@),
            forall|j: int| 0 <= j < i ==> !bracketed(#[trigger] w[j]),
        decreases ws.len() - i,
    {
        let n = ws[i].len();
        assert(w[i as int] == ws@[i as int]@);
        if n >= 2 && ws[i][0] == '[' && ws[i][n - 1] == ']' {
            proof {
                lemma_first_bracketed(w, i as int);
            }
            return string_from_range(&ws[i], 1, n - 1);
        }
        i = i + 1;
    }
    proof {
        lemma_first_bracketed(w, i as int);
    }
    String::from_str("unknown")
}

/// Index of the first `.`, or the length.
pub open spec fn dot_index(s: Seq<char>) -> int {
    crate::parse::first_index_of(s, '.')
}

/// The longest run of ASCII digits that starts `s`.
pub open spec fn digit_prefix_len(s: Seq<char>) -> int
    decreases s.len(),
{
    if s.len() == 0 {
        0
    } else if 48 <= (s[0] as u32) && (s[0] as u32) <= 57 {
        1 + digit_prefix_len(s.drop_first())
    } else {
        0
    }
}

/// Whether a kernel release (`major.minor...`) is 5.8 or newer, or `None`
/// when the major number or the digits that start the minor part are not
/// numbers.
pub open spec fn ring_buffer_inference(release: Seq<char>) -> Option<bool> {
    let d1 = dot_index(release);
    let major = parse_unsigned(release.subrange(0, d1), u32::MAX as nat);
    if d1 >= release.len() || major is None {
        None
    } else {
        let rest = release.subrange(d1 + 1, release.len() as int);
        let second = rest.subrange(0, dot_index(rest));
        let minor = parse_unsigned(second.subrange(0, digit_prefix_len(second)), u32::MAX as nat);
        if minor is None {
            None
        } else {
            Some(major.unwrap() > 5 || (major.unwrap() == 5 && minor.unwrap() >= 8))
        }
    }
}

fn index_of_dot(s: &Vec<char>, from: usize) -> (i: usize)
    requires
        from <= s.len(),
    ensures
        from <= i <= s.len(),
        i - from == dot_index(s@.subrange(from as int, s@.len() as int)),
{
    let mut i = from;
    while i < s.len() && s[i] != '.'
        invariant
            from <= i <= s.len(),
            forall|j: int| from <= j < i ==> s@[j] != '.',
        decreases s.len() - i,
    {
        i = i + 1;
    }
    proof {
        crate::parse::lemma_first_index_unique(s@.subrange(from as int, s@.len() as int), '.', i - from);
    }
    i
}

proof fn lemma_digit_prefix(s: Seq<char>, k: int)
    requires
        0 <= k <= s.len(),
        forall|j: int| 0 <= j < k ==> 48 <= (#[trigger] s[j] as u32) && (s[j] as u32) <= 57,
        k < s.len() ==> !(48 <= (s[k] as u32) && (s[k] as u32) <= 57),
    ensures
        digit_prefix_len(s) == k,
    decreases s.len(),
{
    if s.len() > 0 && k > 0 {
        assert forall|j: int| 0 <= j < k - 1 implies 48 <= (#[trigger] s.drop_first()[j] as u32) && (s.drop_first()[j] as u32) <= 57 by {
            assert(s.drop_first()[j] == s[j + 1]);
        }
        lemma_digit_prefix(s.drop_first(), k - 1);
    }
}

/// Infers ring-buffer support (kernel 5.8 or newer) from the release text.
pub fn kernel_likely_has_ring_buffer(release: &str) -> (r: Option<bool>)
    ensures
        r == ring_buffer_inference(release@),
{
    let s = chars_of(release);
    let d1 = index_of_dot(&s, 0);
    assert(s@.subrange(0, s@.len() as int) =~= s@);
    let first = crate::text::string_from_range(&s, 0, d1);
    let major_chars = chars_of(first.as_str());
    let major = parse_unsigned_exec(&major_chars, 0xffff_ffff);
    if d1 >= s.len() {
        return None;
    }
    let major = match major {
        Some(m) => m,
        None => return None,
    };
    let d2 = index_of_dot(&s, d1 + 1);
    let mut end = d1 + 1;
    while end < d2 && 48 <= s[end] as u32 && s[end] as u32 <= 57
        invariant
            d1 + 1 <= end <= d2 <= s.len(),
            forall|j: int| d1 + 1 <= j < end ==> 48 <= (s@[j] as u32) && (s@[j] as u32) <= 57,
        decreases d2 - end,
    {
        end = end + 1;
    }
    let ghost rest = s@.subrange(d1 + 1, s@.len() as int);
    let ghost second = rest.subrange(0, dot_index(rest));
    proof {
        assert(second =~= s@.subrange(d1 + 1, d2 as int));
        lemma_digit_prefix(second, end - (d1 + 1));
    }
    let digits = crate::text::string_from_range(&s, d1 + 1, end);
    let minor_chars = chars_of(digits.as_str());
    proof {
        assert(minor_chars@ =~= second.subrange(0, digit_prefix_len(second)));
    }
    let minor = match parse_unsigned_exec(&minor_chars, 0xffff_ffff) {
        Some(m) => m,
        None => return None,
    };
    Some(major > 5 || (major == 5 && minor >= 8))
}

/// The C runtime description for a `os/env` target text.
pub open spec fn libc_text(target: Seq<char>) -> Seq<char> {
    if ends_with(target, "/gnu"@) {
        "glibc-compatible target; runtime version not probed"@
    } else if ends_with(target, "/musl"@) {
        "musl target; runtime version not probed"@
    } else {
        "unknown C runtime"@
    }
}

/// Describes the C runtime of a target without probing it.
pub fn libc_description(target: &str) -> (s: String)
    ensures
        s@ == libc_text(target@),
{
    if str_ends_with(target, "/gnu") {
        String::from_str("glibc-compatible target; runtime version not probed")
    } else if str_ends_with(target, "/musl") {
        String::from_str("musl target; runtime version not probed")
    } else {
        String::from_str("unknown C runtime")
    }
}

/// The readiness of an eBPF mode from its independent prerequisites.
pub open spec fn ebpf_readiness(
    linux: bool,
    supported_architecture: bool,
    build: bool,
    btf: bool,
    collector: bool,
    tracepoints: bool,
    tracepoints_restricted: bool,
    privilege: Option<bool>,
) -> ModeAvailability {
    if !linux {
        ModeAvailability::UnsupportedPlatform
    } else if !build {
        ModeAvailability::NotIncludedInBuild
    } else if !supported_architecture || !btf || !collector {
        ModeAvailability::MissingPrerequisite
    } else if tracepoints_restricted && privilege == Some(false) {
        ModeAvailability::PermissionRequired
    } else if tracepoints_restricted {
        ModeAvailability::Unknown
    } else if !tracepoints {
        ModeAvailability::MissingPrerequisite
    } else if privilege == Some(false) {
        ModeAvailability::PermissionRequired
    } else {
        ModeAvailability::AvailableWithLimitations
    }
}

/// Decides the readiness of an eBPF mode.
pub fn ebpf_mode(
    linux: bool,
    supported_architecture: bool,
    build: bool,
    btf: bool,
    collector: bool,
    tracepoints: bool,
    tracepoints_restricted: bool,
    privilege: Option<bool>,
) -> (m: ModeAvailability)
    ensures
        m == ebpf_readiness(
            linux,
            supported_architecture,
            build,
            btf,
            collector,
            tracepoints,
            tracepoints_restricted,
            privilege,
        ),
{
    if !linux {
        ModeAvailability::UnsupportedPlatform
    } else if !build {
        ModeAvailability::NotIncludedInBuild
    } else if !supported_architecture || !btf || !collector {
        ModeAvailability::MissingPrerequisite
    } else if tracepoints_restricted && privilege == Some(false) {
        ModeAvailability::PermissionRequired
    } else if tracepoints_restricted {
        ModeAvailability::Unknown
    } else if !tracepoints {
        ModeAvailability::MissingPrerequisite
    } else if privilege == Some(false) {
        ModeAvailability::PermissionRequired
    } else {
        ModeAvailability::AvailableWithLimitations
    }
}

/// Whether BPF privilege is likely: root or the relevant capabilities mean
/// yes, neither (both known) means no, otherwise unknown.
pub open spec fn privilege_inference(root: Option<bool>, caps: Option<bool>) -> Option<bool> {
    if root == Some(true) || caps == Some(true) {
        Some(true)
    } else if root == Some(false) && caps == Some(false) {
        Some(false)
    } else {
        None
    }
}

/// Decides whether BPF privilege is likely.
pub fn privilege_from_identity(root: Option<bool>, caps: Option<bool>) -> (r: Option<bool>)
    ensures
        r == privilege_inference(root, caps),
{
    match (root, caps) {
        (Some(true), _) | (_, Some(true)) => Some(true),
        (Some(false), Some(false)) => Some(false),
        _ => None,
    }
}

/// The plain label of a status.
pub open spec fn status_label(status: CheckStatus) -> Seq<char> {
    match status {
        CheckStatus::Pass => "PASS"@,
        CheckStatus::Warn => "WARN"@,
        CheckStatus::Fail => "FAIL"@,
        CheckStatus::Unknown => "UNKNOWN"@,
        CheckStatus::NotApplicable => "N/A"@,
        CheckStatus::NotTested => "NOT TESTED"@,
    }
}

/// The SGR color code of a status.
pub open spec fn status_color(status: CheckStatus) -> Seq<char> {
    match status {
        CheckStatus::Pass => "32"@,
        CheckStatus::Warn | CheckStatus::Unknown | CheckStatus::NotTested => "33"@,
        CheckStatus::Fail => "31"@,
        CheckStatus::NotApplicable => "2"@,
    }
}

/// The status as shown: its label, wrapped in a color escape when asked.
pub open spec fn status_display(status: CheckStatus, color: bool) -> Seq<char> {
    if color {
        "\x1b["@ + status_color(status) + "m"@ + status_label(status) + "\x1b[0m"@
    } else {
        status_label(status)
    }
}

fn status_label_text(status: CheckStatus) -> (s: &'static str)
    ensures
        s@ == status_label(status),
{
    match status {
        CheckStatus::Pass => "PASS",
        CheckStatus::Warn => "WARN",
        CheckStatus::Fail => "FAIL",
        CheckStatus::Unknown => "UNKNOWN",
        CheckStatus::NotApplicable => "N/A",
        CheckStatus::NotTested => "NOT TESTED",
    }
}

/// Renders a status for the text report.
pub fn status_text(status: CheckStatus, color: bool) -> (s: String)
    ensures
        s@ == status_display(status, color),
{
    let label = status_label_text(status);
    if !color {
        return String::from_str(label);
    }
    let code = match status {
        CheckStatus::Pass => "32",
        CheckStatus::Warn | CheckStatus::Unknown | CheckStatus::NotTested => "33",
        CheckStatus::Fail => "31",
        CheckStatus::NotApplicable => "2",
    };
    let mut s = String::from_str("\x1b[");
    s.append(code);
    s.append("m");
    s.append(label);
    s.append("\x1b[0m");
    s
}

} // verus!
