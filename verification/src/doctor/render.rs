//! The plain-text rendering of a doctor report.
use vstd::prelude::*;

use super::report::{
    check_views, mode_lookup, mode_views, CheckView, DoctorCheck, DoctorReport, JsonScalar,
    Observed, ObservedView, ScalarView,
};
use super::{availability_text, group_label, status_display, status_text, CheckGroup, ModeAvailability};
use crate::text::{decimal, u64_text};

verus! {

/// A lower-case hexadecimal digit.
pub open spec fn hex_digit(d: nat) -> char {
    if d < 10 {
        ((d + 48) as u32) as char
    } else {
        ((d + 87) as u32) as char
    }
}

/// How `serde_json` writes one character inside a string: quotation mark
/// and reverse solidus escaped with a backslash, the five control
/// characters with short escapes as such, the other control characters
/// below U+0020 as `\u00` and two lower-case hex digits, and every other
/// character as itself.
pub open spec fn json_escape(c: char) -> Seq<char> {
    if c == '"' {
        seq!['\\', '"']
    } else if c == '\\' {
        seq!['\\', '\\']
    } else if c == '\u{8}' {
        seq!['\\', 'b']
    } else if c == '\t' {
        seq!['\\', 't']
    } else if c == '\n' {
        seq!['\\', 'n']
    } else if c == '\u{c}' {
        seq!['\\', 'f']
    } else if c == '\r' {
        seq!['\\', 'r']
    } else if (c as u32) < 0x20 {
        seq!['\\', 'u', '0', '0', hex_digit((c as u32) as nat / 16), hex_digit((c as u32) as nat % 16)]
    } else {
        seq![c]
    }
}

/// The JSON text of a string as `serde_json::to_string` writes it: in
/// quotation marks, each character escaped as [`json_escape`] says.
pub open spec fn json_string(s: Seq<char>) -> Seq<char> {
    seq!['"'] + s.map_values(|c: char| json_escape(c)).flatten() + seq!['"']
}

/// Quotes and escapes a string as JSON, with `serde_json::to_string`
/// (which cannot fail on a string).
#[verifier::external_body]
fn json_quote(s: &str) -> (r: String)
    ensures
        r@ == json_string(s@),
{
    serde_json::to_string(s).unwrap_or_default()
}

/// `n` spaces.
pub open spec fn spaces(n: nat) -> Seq<char> {
    Seq::new(n, |i: int| ' ')
}

/// A text padded on the right with spaces to at least `width` characters.
pub open spec fn pad_right(s: Seq<char>, width: nat) -> Seq<char> {
    if s.len() >= width {
        s
    } else {
        s + spaces((width - s.len()) as nat)
    }
}

/// Pads a text on the right with spaces to at least `width` characters.
fn pad(s: &mut String, width: usize)
    ensures
        final(s)@ == pad_right(old(s)@, width as nat),
{
    let len = s.unicode_len();
    if len >= width {
        return;
    }
    let ghost base = s@;
    let mut k = len;
    while k < width
        invariant
            len <= k <= width,
            len == base.len(),
            s@ == base + spaces((k - len) as nat),
        decreases width - k,
    {
        s.append(" ");
        proof {
            reveal_strlit(" ");
            assert(s@ =~= base + spaces((k + 1 - len) as nat));
        }
        k = k + 1;
    }
}

/// The compact JSON text of a scalar.
pub open spec fn scalar_json(v: ScalarView) -> Seq<char> {
    match v {
        ScalarView::Null => "null"@,
        ScalarView::Bool(b) => if b { "true"@ } else { "false"@ },
        ScalarView::Number(n) => decimal(n as nat),
        ScalarView::Text(t) => json_string(t),
    }
}

/// The compact JSON text of a list of strings, without the brackets.
pub open spec fn texts_json(t: Seq<Seq<char>>) -> Seq<char>
    decreases t.len(),
{
    if t.len() == 0 {
        Seq::empty()
    } else if t.len() == 1 {
        json_string(t[0])
    } else {
        texts_json(t.drop_last()) + ","@ + json_string(t.last())
    }
}

/// The compact JSON text of object members, without the braces.
pub open spec fn fields_json(f: Seq<(Seq<char>, ScalarView)>) -> Seq<char>
    decreases f.len(),
{
    if f.len() == 0 {
        Seq::empty()
    } else if f.len() == 1 {
        json_string(f[0].0) + ":"@ + scalar_json(f[0].1)
    } else {
        fields_json(f.drop_last()) + ","@ + json_string(f.last().0) + ":"@ + scalar_json(f.last().1)
    }
}

/// The compact JSON text of an observation.
pub open spec fn observed_json(o: ObservedView) -> Seq<char> {
    match o {
        ObservedView::Scalar(v) => scalar_json(v),
        ObservedView::Texts(t) => "["@ + texts_json(t) + "]"@,
        ObservedView::Fields(f) => "{"@ + fields_json(f) + "}"@,
    }
}

/// Writes a scalar as compact JSON.
fn scalar_text(v: &JsonScalar) -> (r: String)
    ensures
        r@ == scalar_json(v@),
{
    match v {
        JsonScalar::Null => String::from_str("null"),
        JsonScalar::Bool(b) => if *b { String::from_str("true") } else { String::from_str("false") },
        JsonScalar::Number(n) => u64_text(*n),
        JsonScalar::Text(t) => json_quote(t.as_str()),
    }
}

/// Writes an observation as compact JSON, object members in their order.
pub fn compact_json(o: &Observed) -> (r: String)
    ensures
        r@ == observed_json(o@),
{
    match o {
        Observed::Scalar(v) => scalar_text(v),
        Observed::Texts(t) => {
            let ghost tv = t@.map_values(|x: String| x@);
            let mut r = String::from_str("[");
            let mut i: usize = 0;
            while i < t.len()
                invariant
                    i <= t.len(),
                    tv == t@.map_values(|x: String| x@),
                    r@ == "["@ + texts_json(tv.take(i as int)),
                decreases t.len() - i,
            {
                if i > 0 {
                    r.append(",");
                }
                let q = json_quote(t[i].as_str());
                r.append(q.as_str());
                proof {
                    assert(tv.take(i + 1).drop_last() =~= tv.take(i as int));
                    if i == 0 {
                        assert(texts_json(tv.take(0)) =~= Seq::<char>::empty());
                    }
                    assert(r@ =~= "["@ + texts_json(tv.take(i + 1)));
                }
                i = i + 1;
            }
            r.append("]");
            proof {
                assert(tv.take(t.len() as int) =~= tv);
            }
            r
        },
        Observed::Fields(f) => {
            let ghost fv = f@.map_values(|e: (String, JsonScalar)| (e.0@, e.1@));
            let mut r = String::from_str("{");
            let mut i: usize = 0;
            while i < f.len()
                invariant
                    i <= f.len(),
                    fv == f@.map_values(|e: (String, JsonScalar)| (e.0@, e.1@)),
                    r@ == "{"@ + fields_json(fv.take(i as int)),
                decreases f.len() - i,
            {
                if i > 0 {
                    r.append(",");
                }
                let k = json_quote(f[i].0.as_str());
                r.append(k.as_str());
                r.append(":");
                let v = scalar_text(&f[i].1);
                r.append(v.as_str());
                proof {
                    assert(fv.take(i + 1).drop_last() =~= fv.take(i as int));
                    if i == 0 {
                        assert(fields_json(fv.take(0)) =~= Seq::<char>::empty());
                    }
                    assert(r@ =~= "{"@ + fields_json(fv.take(i + 1)));
                }
                i = i + 1;
            }
            r.append("}");
            proof {
                assert(fv.take(f.len() as int) =~= fv);
            }
            r
        },
    }
}

/// The group heading that starts a new group.
pub open spec fn check_heading(c: CheckView, previous: Option<CheckGroup>) -> Seq<char> {
    if previous != Some(c.group) {
        group_label(c.group) + "\n"@
    } else {
        Seq::empty()
    }
}

/// The status line of a check.
pub open spec fn check_main(c: CheckView, color: bool) -> Seq<char> {
    "  "@ + pad_right(status_display(c.status, color), 12) + " "@ + pad_right(c.label, 28) + " "@
        + c.summary + "\n"@
}

/// The detail lines of a check: id, observation and hint, in verbose mode.
pub open spec fn check_details(c: CheckView, verbose: bool) -> Seq<char> {
    if verbose {
        "               id: "@ + c.id + "\n"@ + (match c.observed {
            Some(o) => "               observed: "@ + observed_json(o) + "\n"@,
            None => Seq::empty(),
        }) + (match c.remediation {
            Some(r) => "               hint: "@ + r + "\n"@,
            None => Seq::empty(),
        })
    } else {
        Seq::empty()
    }
}

/// The lines of one check: the group heading when the group changes, the
/// status line, and in verbose mode the id, observation and hint.
pub open spec fn check_lines(c: CheckView, previous: Option<CheckGroup>, verbose: bool, color: bool) -> Seq<char> {
    check_heading(c, previous) + check_main(c, color) + check_details(c, verbose)
}

/// The group of the last check, if any.
pub open spec fn last_group(cs: Seq<CheckView>) -> Option<CheckGroup> {
    if cs.len() == 0 {
        None
    } else {
        Some(cs.last().group)
    }
}

/// The lines of all checks in order.
pub open spec fn checks_text(cs: Seq<CheckView>, verbose: bool, color: bool) -> Seq<char>
    decreases cs.len(),
{
    if cs.len() == 0 {
        Seq::empty()
    } else {
        checks_text(cs.drop_last(), verbose, color) + check_lines(
            cs.last(),
            last_group(cs.drop_last()),
            verbose,
            color,
        )
    }
}

/// The modes in the order the text report lists them.
pub open spec fn listed_modes() -> Seq<Seq<char>> {
    seq!["demo"@, "stdin"@, "schema"@, "replay"@, "proc"@, "scheduler"@, "tcp"@]
}

/// The mode lines for the first `n` listed modes that the summary has.
pub open spec fn modes_text(m: Seq<(Seq<char>, ModeAvailability)>, n: int) -> Seq<char>
    decreases n,
{
    if n <= 0 {
        Seq::empty()
    } else {
        modes_text(m, n - 1) + match mode_lookup(m, listed_modes()[n - 1]) {
            Some(a) => "  "@ + pad_right(listed_modes()[n - 1], 10) + " "@ + availability_text(a)
                + "\n"@,
            None => Seq::empty(),
        }
    }
}

/// The suggestion: the privileged command of the first eBPF source that
/// needs privilege, or the demo.
pub open spec fn suggestion(m: Seq<(Seq<char>, ModeAvailability)>) -> Seq<char> {
    if mode_lookup(m, "scheduler"@) == Some(ModeAvailability::PermissionRequired) {
        "  sudo synesthesia ebpf scheduler\n  (Synesthesia will not escalate privileges itself.)\n"@
    } else if mode_lookup(m, "tcp"@) == Some(ModeAvailability::PermissionRequired) {
        "  sudo synesthesia ebpf tcp\n  (Synesthesia will not escalate privileges itself.)\n"@
    } else {
        "  synesthesia demo\n"@
    }
}

/// The text report: header, checks by group, modes, a suggestion and the
/// privacy notice.
pub open spec fn report_text(r: DoctorReport, verbose: bool, color: bool) -> Seq<char> {
    "Synesthesia doctor "@ + r.synesthesia_version@ + "  schema "@ + decimal(r.schema_version as nat)
        + "\nPlatform: "@ + r.platform.os@ + " "@ + r.platform.architecture@ + "  kernel "@
        + r.platform.kernel@ + "  "@ + r.platform.libc@ + "\n\n"@ + checks_text(
        check_views(r.checks@),
        verbose,
        color,
    ) + "\nModes\n"@ + modes_text(mode_views(r.mode_summary@), 7) + "\nTry:\n"@ + suggestion(
        mode_views(r.mode_summary@),
    ) + "\n"@ + r.privacy_notice@ + "\n"@
}

/// The status line of a check.
fn main_line(c: &DoctorCheck, color: bool) -> (out: String)
    ensures
        out@ == check_main(c@, color),
{
    let mut out = String::from_str("  ");
    let mut status = status_text(c.status, color);
    pad(&mut status, 12);
    out.append(status.as_str());
    out.append(" ");
    let mut label = c.label.clone();
    pad(&mut label, 28);
    out.append(label.as_str());
    out.append(" ");
    out.append(c.summary.as_str());
    out.append("\n");
    out
}

/// The detail lines of a check.
fn detail_lines(c: &DoctorCheck, verbose: bool) -> (extra: String)
    ensures
        extra@ == check_details(c@, verbose),
{
    let mut extra = String::new();
    if verbose {
        extra.append("               id: ");
        extra.append(c.id.as_str());
        extra.append("\n");
        let ghost after_id = extra@;
        let mut observed = String::new();
        match &c.observed {
            Some(o) => {
                observed.append("               observed: ");
                let j = compact_json(o);
                observed.append(j.as_str());
                observed.append("\n");
            },
            None => {},
        }
        extra.append(observed.as_str());
        let mut hint = String::new();
        match &c.remediation {
            Some(r) => {
                hint.append("               hint: ");
                hint.append(r.as_str());
                hint.append("\n");
            },
            None => {},
        }
        extra.append(hint.as_str());
    }
    extra
}

/// Appends the lines of one check.
fn append_check(out: &mut String, c: &DoctorCheck, previous: Option<CheckGroup>, verbose: bool, color: bool)
    ensures
        final(out)@ == old(out)@ + check_lines(c@, previous, verbose, color),
{
    let ghost start = out@;
    let mut heading = String::new();
    if previous != Some(c.group) {
        heading.append(c.group.label());
        heading.append("\n");
    }
    out.append(heading.as_str());
    let main = main_line(c, color);
    out.append(main.as_str());
    let details = detail_lines(c, verbose);
    out.append(details.as_str());
    proof {
        assert(out@ =~= start + check_lines(c@, previous, verbose, color));
    }
}

/// The name of the `i`th listed mode.
fn listed_mode(i: usize) -> (s: &'static str)
    requires
        i < 7,
    ensures
        s@ == listed_modes()[i as int],
{
    match i {
        0 => "demo",
        1 => "stdin",
        2 => "schema",
        3 => "replay",
        4 => "proc",
        5 => "scheduler",
        _ => "tcp",
    }
}

/// Renders the report as text, optionally with the details of each check
/// and colored statuses.
pub fn render_text(report: &DoctorReport, verbose: bool, color: bool) -> (s: String)
    ensures
        s@ == report_text(*report, verbose, color),
{
    let mut out = String::from_str("Synesthesia doctor ");
    out.append(report.synesthesia_version.as_str());
    out.append("  schema ");
    let schema = u64_text(report.schema_version as u64);
    out.append(schema.as_str());
    out.append("\nPlatform: ");
    out.append(report.platform.os.as_str());
    out.append(" ");
    out.append(report.platform.architecture.as_str());
    out.append("  kernel ");
    out.append(report.platform.kernel.as_str());
    out.append("  ");
    out.append(report.platform.libc.as_str());
    out.append("\n\n");
    let ghost header = out@;
    let ghost cs = check_views(report.checks@);
    let mut previous: Option<CheckGroup> = None;
    let mut i: usize = 0;
    while i < report.checks.len()
        invariant
            i <= report.checks.len(),
            cs == check_views(report.checks@),
            previous == last_group(cs.take(i as int)),
            out@ == header + checks_text(cs.take(i as int), verbose, color),
        decreases report.checks.len() - i,
    {
        append_check(&mut out, &report.checks[i], previous, verbose, color);
        proof {
            assert(cs.take(i + 1).drop_last() =~= cs.take(i as int));
        }
        previous = Some(report.checks[i].group);
        i = i + 1;
    }
    proof {
        assert(cs.take(report.checks.len() as int) =~= cs);
    }
    out.append("\nModes\n");
    let ghost before_modes = out@;
    let ghost m = mode_views(report.mode_summary@);
    let mut k: usize = 0;
    while k < 7
        invariant
            k <= 7,
            m == mode_views(report.mode_summary@),
            out@ == before_modes + modes_text(m, k as int),
        decreases 7 - k,
    {
        let name = listed_mode(k);
        match report.mode(name) {
            Some(status) => {
                out.append("  ");
                let mut padded = String::from_str(name);
                pad(&mut padded, 10);
                out.append(padded.as_str());
                out.append(" ");
                out.append(status.text());
                out.append("\n");
            },
            None => {},
        }
        proof {
            assert(out@ =~= before_modes + modes_text(m, k + 1));
        }
        k = k + 1;
    }
    out.append("\nTry:\n");
    let scheduler = report.mode("scheduler");
    let tcp = report.mode("tcp");
    if scheduler == Some(ModeAvailability::PermissionRequired) {
        out.append("  sudo synesthesia ebpf scheduler\n  (Synesthesia will not escalate privileges itself.)\n");
    } else if tcp == Some(ModeAvailability::PermissionRequired) {
        out.append("  sudo synesthesia ebpf tcp\n  (Synesthesia will not escalate privileges itself.)\n");
    } else {
        out.append("  synesthesia demo\n");
    }
    out.append("\n");
    out.append(report.privacy_notice.as_str());
    out.append("\n");
    proof {
        assert(out@ =~= report_text(*report, verbose, color));
    }
    out
}

} // verus!
