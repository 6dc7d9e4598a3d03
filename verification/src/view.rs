//! Small pieces of the terminal view: the procfs source's status counters,
//! the short names of views and modes in narrow status lines, and which
//! TCP pathology an activity category stands for; and the text of a
//! character grid: its status row and its plain-text snapshot.
use vstd::prelude::*;

use crate::cli::{DisplayMode, ViewKind};
use crate::source::{all_ascii, ascii_bytes, fnv1a, stable_hash_str};
use crate::text::{chars_of, string_from_chars};

verus! {

/// Counters of the live procfs source shown in the status line.
#[derive(Clone, Copy, Debug, PartialEq, Eq, Structural)]
pub struct ProcSourceStatus {
    pub interval_ms: u64,
    pub tracked_count: u64,
    pub unreadable: u64,
    pub vanished: u64,
    pub source_dropped: u64,
}

impl Default for ProcSourceStatus {
    fn default() -> (s: Self)
        ensures
            s == (ProcSourceStatus { interval_ms: 0, tracked_count: 0, unreadable: 0, vanished: 0, source_dropped: 0 }),
    {
        ProcSourceStatus { interval_ms: 0, tracked_count: 0, unreadable: 0, vanished: 0, source_dropped: 0 }
    }
}

/// The one-letter name of a view.
pub open spec fn view_letter(view: ViewKind) -> Seq<char> {
    match view {
        ViewKind::Weather => "w"@,
        ViewKind::Waterfall => "f"@,
    }
}

/// The name of a view in a narrow status line.
pub fn short_view(view: ViewKind) -> (s: &'static str)
    ensures
        s@ == view_letter(view),
{
    match view {
        ViewKind::Weather => "w",
        ViewKind::Waterfall => "f",
    }
}

/// The name of a display mode.
pub open spec fn mode_name(mode: DisplayMode) -> Seq<char> {
    match mode {
        DisplayMode::Ansi => "ansi"@,
        DisplayMode::Ascii => "ascii"@,
    }
}

/// The name of a display mode in a narrow status line.
pub fn short_mode(mode: DisplayMode) -> (s: &'static str)
    ensures
        s@ == mode_name(mode),
{
    match mode {
        DisplayMode::Ansi => "ansi",
        DisplayMode::Ascii => "ascii",
    }
}

/// The TCP pathologies the weather draws with their own glyphs.
#[derive(Clone, Copy, Debug, PartialEq, Eq, Structural)]
pub enum TcpVisual {
    Retransmit,
    ResetSent,
    ResetReceived,
}

/// The hash of an ASCII category name.
pub open spec fn category_hash(name: Seq<char>) -> u64 {
    fnv1a(ascii_bytes(name))
}

/// The pathology a category hash stands for, if any.
pub open spec fn visual_of(category: u64) -> Option<TcpVisual> {
    if category == category_hash("tcp.retransmit"@) {
        Some(TcpVisual::Retransmit)
    } else if category == category_hash("tcp.reset.send"@) {
        Some(TcpVisual::ResetSent)
    } else if category == category_hash("tcp.reset.receive"@) {
        Some(TcpVisual::ResetReceived)
    } else {
        None
    }
}

/// Which pathology an activity's category hash stands for.
pub fn tcp_visual(category: u64) -> (v: Option<TcpVisual>)
    ensures
        v == visual_of(category),
{
    proof {
        reveal_strlit("tcp.retransmit");
        reveal_strlit("tcp.reset.send");
        reveal_strlit("tcp.reset.receive");
    }
    if category == stable_hash_str("tcp.retransmit") {
        Some(TcpVisual::Retransmit)
    } else if category == stable_hash_str("tcp.reset.send") {
        Some(TcpVisual::ResetSent)
    } else if category == stable_hash_str("tcp.reset.receive") {
        Some(TcpVisual::ResetReceived)
    } else {
        None
    }
}

/// Printable ASCII: a space through `~`, neither control nor beyond ASCII.
pub open spec fn printable_ascii(c: char) -> bool {
    ' ' <= c && c <= '~'
}

/// The printable ASCII characters of `s`, in order.
pub open spec fn printable_only(s: Seq<char>) -> Seq<char>
    decreases s.len(),
{
    if s.len() == 0 {
        s
    } else if printable_ascii(s.last()) {
        printable_only(s.drop_last()).push(s.last())
    } else {
        printable_only(s.drop_last())
    }
}

/// What a status line shows: its printable ASCII characters, at most
/// `width` of them.
pub open spec fn status_glyphs(status: Seq<char>, width: nat) -> Seq<char> {
    let p = printable_only(status);
    if p.len() > width {
        p.take(width as int)
    } else {
        p
    }
}

proof fn lemma_printable_only(s: Seq<char>)
    ensures
        printable_only(s).len() <= s.len(),
        forall|i: int| 0 <= i < printable_only(s).len() ==> printable_ascii(#[trigger] printable_only(s)[i]),
    decreases s.len(),
{
    if s.len() > 0 {
        lemma_printable_only(s.drop_last());
    }
}

/// The glyphs of a status line of `width` cells: the printable ASCII
/// characters of `status`, cut at the width.
pub fn status_row(status: &str, width: u16) -> (row: Vec<char>)
    ensures
        row@ == status_glyphs(status@, width as nat),
{
    let chars = chars_of(status);
    let mut row: Vec<char> = Vec::new();
    let mut i: usize = 0;
    while i < chars.len() && row.len() < width as usize
        invariant
            i <= chars@.len(),
            chars@ == status@,
            row@ == printable_only(chars@.take(i as int)),
            row@.len() <= width,
        decreases chars.len() - i,
    {
        let c = chars[i];
        assert(chars@.take(i + 1).drop_last() =~= chars@.take(i as int));
        if ' ' <= c && c <= '~' {
            row.push(c);
        }
        i = i + 1;
    }
    proof {
        lemma_printable_prefix(chars@, i as int, width as nat);
    }
    row
}

/// Filtering a prefix gives a prefix of the filtered whole, and once it
/// reaches `width` characters the rest cannot change the first `width`.
proof fn lemma_printable_prefix(s: Seq<char>, i: int, width: nat)
    requires
        0 <= i <= s.len(),
        i == s.len() || printable_only(s.take(i)).len() >= width,
        printable_only(s.take(i)).len() <= width,
    ensures
        printable_only(s.take(i)) == status_glyphs(s, width),
{
    lemma_printable_only_prefix(s, i);
    if i == s.len() {
        assert(s.take(i) =~= s);
    }
}

/// The filtered prefix is a prefix of the filtered whole.
proof fn lemma_printable_only_prefix(s: Seq<char>, i: int)
    requires
        0 <= i <= s.len(),
    ensures
        printable_only(s.take(i)).len() <= printable_only(s).len(),
        printable_only(s.take(i)) == printable_only(s).take(printable_only(s.take(i)).len() as int),
    decreases s.len() - i,
{
    if i < s.len() {
        lemma_printable_only_prefix(s, i + 1);
        assert(s.take(i + 1).drop_last() =~= s.take(i));
        let a = printable_only(s.take(i));
        let b = printable_only(s.take(i + 1));
        assert(b.take(a.len() as int) =~= a);
    } else {
        assert(s.take(i) =~= s);
        assert(printable_only(s).take(printable_only(s).len() as int) =~= printable_only(s));
    }
}

/// A row without its trailing spaces.
pub open spec fn trim_trailing_spaces(row: Seq<char>) -> Seq<char>
    decreases row.len(),
{
    if row.len() > 0 && row.last() == ' ' {
        trim_trailing_spaces(row.drop_last())
    } else {
        row
    }
}

/// The first `rows` rows of a grid of `width` glyphs per row, each without
/// its trailing spaces, joined by newlines.
pub open spec fn grid_rows_text(width: nat, glyphs: Seq<char>, rows: nat) -> Seq<char>
    decreases rows,
{
    if rows == 0 {
        Seq::empty()
    } else {
        let row = trim_trailing_spaces(glyphs.subrange((rows - 1) * width, (rows * width) as int));
        if rows == 1 {
            row
        } else {
            grid_rows_text(width, glyphs, (rows - 1) as nat) + seq!['\n'] + row
        }
    }
}

proof fn lemma_trim_at(row: Seq<char>, k: int)
    requires
        0 <= k <= row.len(),
        forall|j: int| k <= j < row.len() ==> row[j] == ' ',
        k == 0 || row[k - 1] != ' ',
    ensures
        trim_trailing_spaces(row) == row.take(k),
    decreases row.len(),
{
    if row.len() > k {
        lemma_trim_at(row.drop_last(), k);
        assert(row.drop_last().take(k) =~= row.take(k));
    } else {
        assert(row.take(k) =~= row);
    }
}

/// The plain-text snapshot of a grid of `width` by `height` glyphs stored
/// row by row: each row without its trailing spaces, rows separated by
/// newlines.
pub fn grid_text(width: u16, height: u16, glyphs: &Vec<char>) -> (s: String)
    requires
        glyphs.len() == width as nat * height as nat,
    ensures
        s@ == grid_rows_text(width as nat, glyphs@, height as nat),
{
    let w = width as usize;
    let mut out: Vec<char> = Vec::new();
    let mut y: usize = 0;
    while y < height as usize
        invariant
            y <= height,
            w == width,
            glyphs.len() == width as nat * height as nat,
            out@ == grid_rows_text(width as nat, glyphs@, y as nat),
        decreases height - y,
    {
        assert((y + 1) * w <= width as nat * height as nat) by (nonlinear_arith)
            requires
                y < height,
                w == width,
        ;
        assert(y * w + w == (y + 1) * w) by (nonlinear_arith);
        let start = y * w;
        let mut k = w;
        while k > 0 && glyphs[start + k - 1] == ' '
            invariant
                k <= w,
                start == y * w,
                start + w <= glyphs.len(),
                forall|j: int| start + k <= j < start + w ==> glyphs@[j] == ' ',
            decreases k,
        {
            k = k - 1;
        }
        let ghost row = glyphs@.subrange(start as int, start + w);
        proof {
            lemma_trim_at(row, k as int);
        }
        if y > 0 {
            out.push('\n');
        }
        let ghost before = out@;
        let mut j: usize = 0;
        while j < k
            invariant
                j <= k,
                k <= w,
                start + w <= glyphs.len(),
                out@ == before + glyphs@.subrange(start as int, start + j),
            decreases k - j,
        {
            out.push(glyphs[start + j]);
            j = j + 1;
            assert(out@ =~= before + glyphs@.subrange(start as int, start + j));
        }
        proof {
            assert(glyphs@.subrange(start as int, start + k) =~= row.take(k as int));
            assert(start + w == (y + 1) * w) by (nonlinear_arith)
                requires
                    start == y * w,
            ;
        }
        y = y + 1;
        proof {
            if y > 1 {
                assert(out@ =~= grid_rows_text(width as nat, glyphs@, (y - 1) as nat) + seq!['\n']
                    + trim_trailing_spaces(row));
            } else {
                assert(out@ =~= trim_trailing_spaces(row));
            }
        }
    }
    string_from_chars(out.as_slice())
}

/// Law: a snapshot holds only newlines and glyphs of the grid; so when
/// every glyph is printable ASCII, the snapshot is printable ASCII and
/// newlines only.
pub proof fn law_snapshot_is_printable(width: nat, glyphs: Seq<char>, rows: nat)
    requires
        glyphs.len() == width * rows,
        forall|i: int| 0 <= i < glyphs.len() ==> printable_ascii(#[trigger] glyphs[i]),
    ensures
        forall|i: int|
            0 <= i < grid_rows_text(width, glyphs, rows).len() ==> {
                let c = #[trigger] grid_rows_text(width, glyphs, rows)[i];
                c == '\n' || printable_ascii(c)
            },
    decreases rows,
{
    if rows > 0 {
        let lo = (rows - 1) * width;
        assert(lo + width == (rows * width) as int) by (nonlinear_arith)
            requires
                lo == (rows - 1) * width,
        ;
        let row = glyphs.subrange(lo, (rows * width) as int);
        lemma_trim_prefix(row);
        if rows > 1 {
            assert(lo == width * (rows - 1) as nat && lo <= glyphs.len()) by (nonlinear_arith)
                requires
                    lo == (rows - 1) * width,
                    rows > 1,
                    glyphs.len() == width * rows,
            ;
            let head = glyphs.take(lo);
            assert forall|i: int| 0 <= i < head.len() implies printable_ascii(#[trigger] head[i]) by {
                assert(head[i] == glyphs[i]);
            }
            law_snapshot_is_printable(width, glyphs.take(lo), (rows - 1) as nat);
            lemma_rows_text_prefix(width, glyphs, lo, (rows - 1) as nat);
        }
    }
}

/// A row without its trailing spaces is a prefix of the row.
proof fn lemma_trim_prefix(row: Seq<char>)
    ensures
        trim_trailing_spaces(row).len() <= row.len(),
        trim_trailing_spaces(row) == row.take(trim_trailing_spaces(row).len() as int),
    decreases row.len(),
{
    if row.len() > 0 && row.last() == ' ' {
        lemma_trim_prefix(row.drop_last());
        assert(row.drop_last().take(trim_trailing_spaces(row).len() as int) =~= row.take(
            trim_trailing_spaces(row).len() as int,
        ));
    } else {
        assert(row.take(row.len() as int) =~= row);
    }
}

/// The first rows' text depends only on the glyphs of those rows.
proof fn lemma_rows_text_prefix(width: nat, glyphs: Seq<char>, n: int, rows: nat)
    requires
        rows * width <= n <= glyphs.len(),
    ensures
        grid_rows_text(width, glyphs.take(n), rows) == grid_rows_text(width, glyphs, rows),
    decreases rows,
{
    if rows > 0 {
        assert((rows - 1) * width <= (rows * width) as int) by (nonlinear_arith);
        lemma_rows_text_prefix(width, glyphs, n, (rows - 1) as nat);
        assert(glyphs.take(n).subrange((rows - 1) * width, (rows * width) as int) =~= glyphs.subrange(
            (rows - 1) * width,
            (rows * width) as int,
        ));
    }
}

} // verus!
