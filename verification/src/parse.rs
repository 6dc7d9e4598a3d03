//! Line, word and number splitting with the meaning std gives `lines`,
//! `split_ascii_whitespace`, `trim`, `split_once` and `parse::<u64>`.
use vstd::prelude::*;

verus! {

/// Index of the first `c` in `s`, or `s.len()` when there is none.
pub open spec fn first_index_of(s: Seq<char>, c: char) -> int
    decreases s.len(),
{
    if s.len() == 0 {
        0
    } else if s[0] == c {
        0
    } else {
        1 + first_index_of(s.drop_first(), c)
    }
}

pub proof fn lemma_first_index_of(s: Seq<char>, c: char)
    ensures
        0 <= first_index_of(s, c) <= s.len(),
        forall|j: int| 0 <= j < first_index_of(s, c) ==> s[j] != c,
        first_index_of(s, c) < s.len() ==> s[first_index_of(s, c)] == c,
    decreases s.len(),
{
    if s.len() > 0 && s[0] != c {
        lemma_first_index_of(s.drop_first(), c);
        assert forall|j: int| 0 <= j < first_index_of(s, c) implies s[j] != c by {
            if j > 0 {
                assert(s[j] == s.drop_first()[j - 1]);
            }
        }
    }
}

/// The first index characterizes `first_index_of`.
pub proof fn lemma_first_index_unique(s: Seq<char>, c: char, i: int)
    requires
        0 <= i <= s.len(),
        forall|j: int| 0 <= j < i ==> s[j] != c,
        i < s.len() ==> s[i] == c,
    ensures
        first_index_of(s, c) == i,
{
    lemma_first_index_of(s, c);
    let f = first_index_of(s, c);
    if f < i {
        assert(s[f] == c);
    } else if f > i {
        assert(s[i] != c);
    }
}

/// A line without its `\n` terminator loses one trailing `\r` too.
pub open spec fn strip_cr(line: Seq<char>) -> Seq<char> {
    if line.len() > 0 && line.last() == '\r' {
        line.drop_last()
    } else {
        line
    }
}

/// The lines of a text as `str::lines` yields them: split at `\n`, each
/// terminated line losing a trailing `\r`, and no empty last line.
pub open spec fn split_lines(s: Seq<char>) -> Seq<Seq<char>>
    decreases s.len(),
{
    if s.len() == 0 {
        Seq::empty()
    } else {
        let i = first_index_of(s, '\n');
        if i >= s.len() {
            seq![s]
        } else if i < 0 {
            Seq::empty()
        } else {
            seq![strip_cr(s.subrange(0, i))] + split_lines(s.subrange(i + 1, s.len() as int))
        }
    }
}

/// ASCII whitespace as `u8::is_ascii_whitespace` defines it.
pub open spec fn ascii_space(c: char) -> bool {
    c == ' ' || c == '\t' || c == '\n' || c == '\x0C' || c == '\r'
}

/// A word separator: Unicode whitespace when `unicode`, else ASCII.
pub open spec fn separator(c: char, unicode: bool) -> bool {
    if unicode {
        unicode_space(c)
    } else {
        ascii_space(c)
    }
}

/// Index of the first separator in `s`, or `s.len()`.
pub open spec fn first_separator(s: Seq<char>, unicode: bool) -> int
    decreases s.len(),
{
    if s.len() == 0 {
        0
    } else if separator(s[0], unicode) {
        0
    } else {
        1 + first_separator(s.drop_first(), unicode)
    }
}

/// Index of the first ASCII whitespace in `s`, or `s.len()`.
pub open spec fn first_space(s: Seq<char>) -> int {
    first_separator(s, false)
}

pub proof fn lemma_first_separator(s: Seq<char>, unicode: bool)
    ensures
        0 <= first_separator(s, unicode) <= s.len(),
        forall|j: int| 0 <= j < first_separator(s, unicode) ==> !separator(s[j], unicode),
        first_separator(s, unicode) < s.len() ==> separator(s[first_separator(s, unicode)], unicode),
    decreases s.len(),
{
    if s.len() > 0 && !separator(s[0], unicode) {
        lemma_first_separator(s.drop_first(), unicode);
        assert forall|j: int| 0 <= j < first_separator(s, unicode) implies !separator(s[j], unicode) by {
            if j > 0 {
                assert(s[j] == s.drop_first()[j - 1]);
            }
        }
    }
}

pub proof fn lemma_first_space(s: Seq<char>)
    ensures
        0 <= first_space(s) <= s.len(),
        forall|j: int| 0 <= j < first_space(s) ==> !ascii_space(s[j]),
        first_space(s) < s.len() ==> ascii_space(s[first_space(s)]),
{
    lemma_first_separator(s, false);
}

proof fn lemma_first_separator_unique(s: Seq<char>, unicode: bool, i: int)
    requires
        0 <= i <= s.len(),
        forall|j: int| 0 <= j < i ==> !separator(s[j], unicode),
        i < s.len() ==> separator(s[i], unicode),
    ensures
        first_separator(s, unicode) == i,
{
    lemma_first_separator(s, unicode);
    let f = first_separator(s, unicode);
    if f < i {
        assert(separator(s[f], unicode));
    } else if f > i {
        assert(!separator(s[i], unicode));
    }
}

/// The words of a text: the maximal runs without separators, as
/// `split_whitespace` (Unicode) or `split_ascii_whitespace` yields them.
pub open spec fn split_words(s: Seq<char>, unicode: bool) -> Seq<Seq<char>>
    decreases s.len(),
{
    if s.len() == 0 {
        Seq::empty()
    } else if separator(s[0], unicode) {
        split_words(s.drop_first(), unicode)
    } else {
        let i = first_separator(s, unicode);
        if i <= 0 || i > s.len() {
            Seq::empty()
        } else {
            seq![s.subrange(0, i)] + split_words(s.subrange(i, s.len() as int), unicode)
        }
    }
}

/// The words of a text as `split_ascii_whitespace` yields them.
pub open spec fn words(s: Seq<char>) -> Seq<Seq<char>> {
    split_words(s, false)
}

/// The words of a text as `split_whitespace` yields them.
pub open spec fn unicode_words(s: Seq<char>) -> Seq<Seq<char>> {
    split_words(s, true)
}

/// A text that starts with a non-space character has a first word that
/// runs up to the first space.
pub proof fn lemma_words_first(s: Seq<char>)
    requires
        s.len() > 0,
        !ascii_space(s[0]),
    ensures
        words(s).len() > 0,
        words(s)[0] == s.subrange(0, first_space(s)),
        words(s).drop_first() == words(s.subrange(first_space(s), s.len() as int)),
{
    lemma_first_space(s);
    assert(first_space(s) > 0);
    let i = first_space(s);
    assert(words(s) == seq![s.subrange(0, i)] + words(s.subrange(i, s.len() as int)));
    assert(words(s).drop_first() =~= words(s.subrange(i, s.len() as int)));
}

/// Whitespace as `char::is_whitespace` defines it (the Unicode
/// White_Space property).
pub open spec fn unicode_space(c: char) -> bool {
    let x = c as u32;
    (0x09 <= x && x <= 0x0d) || x == 0x20 || x == 0x85 || x == 0xa0 || x == 0x1680 || (0x2000 <= x
        && x <= 0x200a) || x == 0x2028 || x == 0x2029 || x == 0x202f || x == 0x205f || x == 0x3000
}

/// `s` without leading and trailing Unicode whitespace, as `str::trim`.
pub open spec fn trim_text(s: Seq<char>) -> Seq<char> {
    let start = leading_space(s);
    let end = s.len() - trailing_space(s);
    if start >= end {
        Seq::empty()
    } else {
        s.subrange(start, end)
    }
}

/// How many whitespace characters `s` starts with.
pub open spec fn leading_space(s: Seq<char>) -> int
    decreases s.len(),
{
    if s.len() == 0 {
        0
    } else if unicode_space(s[0]) {
        1 + leading_space(s.drop_first())
    } else {
        0
    }
}

/// How many whitespace characters `s` ends with.
pub open spec fn trailing_space(s: Seq<char>) -> int
    decreases s.len(),
{
    if s.len() == 0 {
        0
    } else if unicode_space(s.last()) {
        1 + trailing_space(s.drop_last())
    } else {
        0
    }
}

/// The value of a run of ASCII digits.
pub open spec fn digits_value(s: Seq<char>) -> nat
    decreases s.len(),
{
    if s.len() == 0 {
        0
    } else {
        digits_value(s.drop_last()) * 10 + ((s.last() as u32) - 48) as nat
    }
}

/// All characters are ASCII digits.
pub open spec fn all_digits(s: Seq<char>) -> bool {
    forall|i: int| 0 <= i < s.len() ==> 48 <= (#[trigger] s[i] as u32) && (s[i] as u32) <= 57
}

/// The unsigned integer a text denotes for `str::parse`: an optional `+`
/// followed by at least one ASCII digit, with a value up to `max`.
pub open spec fn parse_unsigned(s: Seq<char>, max: nat) -> Option<nat> {
    let digits = if s.len() > 0 && s[0] == '+' {
        s.drop_first()
    } else {
        s
    };
    if digits.len() > 0 && all_digits(digits) && digits_value(digits) <= max {
        Some(digits_value(digits))
    } else {
        None
    }
}

/// Splits a text into its lines.
pub fn lines_of(s: &Vec<char>) -> (out: Vec<Vec<char>>)
    ensures
        out@.map_values(|l: Vec<char>| l@) == split_lines(s@),
{
    let mut out: Vec<Vec<char>> = Vec::new();
    let mut pos: usize = 0;
    proof {
        assert(s@.subrange(0, s@.len() as int) =~= s@);
    }
    while pos < s.len()
        invariant
            pos <= s.len(),
            out@.map_values(|l: Vec<char>| l@) + split_lines(s@.subrange(pos as int, s@.len() as int))
                == split_lines(s@),
        decreases s.len() - pos,
    {
        let ghost rest = s@.subrange(pos as int, s@.len() as int);
        let mut line: Vec<char> = Vec::new();
        let mut i = pos;
        while i < s.len() && s[i] != '\n'
            invariant
                pos <= i <= s.len(),
                line@ == s@.subrange(pos as int, i as int),
                forall|j: int| pos <= j < i ==> s@[j] != '\n',
            decreases s.len() - i,
        {
            line.push(s[i]);
            i = i + 1;
            assert(line@ =~= s@.subrange(pos as int, i as int));
        }
        proof {
            lemma_first_index_unique(rest, '\n', i - pos);
        }
        let ghost old_out = out@.map_values(|l: Vec<char>| l@);
        let ghost seg = s@.subrange(pos as int, i as int);
        if i < s.len() {
            if line.len() > 0 && line[line.len() - 1] == '\r' {
                line.pop();
            }
            proof {
                assert(line@ =~= strip_cr(seg));
                assert(rest.subrange(0, i - pos) =~= seg);
                assert(rest.subrange(i - pos + 1, rest.len() as int) =~= s@.subrange(
                    i + 1,
                    s@.len() as int,
                ));
            }
            out.push(line);
            proof {
                assert(out@.map_values(|l: Vec<char>| l@) =~= old_out + seq![strip_cr(seg)]);
            }
            pos = i + 1;
        } else {
            proof {
                assert(rest =~= s@.subrange(pos as int, i as int));
            }
            out.push(line);
            pos = i;
            proof {
                assert(out@.map_values(|l: Vec<char>| l@) =~= old_out + seq![rest]);
                assert(s@.subrange(pos as int, s@.len() as int) =~= Seq::<char>::empty());
            }
        }
    }
    proof {
        assert(s@.subrange(pos as int, s@.len() as int) =~= Seq::<char>::empty());
        assert(out@.map_values(|l: Vec<char>| l@) + Seq::<Seq<char>>::empty() =~= out@.map_values(
            |l: Vec<char>| l@,
        ));
    }
    out
}

/// Is `c` ASCII whitespace?
pub fn is_ascii_space(c: char) -> (b: bool)
    ensures
        b == ascii_space(c),
{
    c == ' ' || c == '\t' || c == '\n' || c == '\x0C' || c == '\r'
}

/// Is `c` a word separator?
fn is_separator(c: char, unicode: bool) -> (b: bool)
    ensures
        b == separator(c, unicode),
{
    if unicode {
        is_unicode_space(c)
    } else {
        is_ascii_space(c)
    }
}

/// Splits a text into its words, at Unicode or ASCII whitespace.
pub fn split_words_of(s: &Vec<char>, unicode: bool) -> (out: Vec<Vec<char>>)
    ensures
        out@.map_values(|w: Vec<char>| w@) == split_words(s@, unicode),
{
    let mut out: Vec<Vec<char>> = Vec::new();
    let mut pos: usize = 0;
    proof {
        assert(s@.subrange(0, s@.len() as int) =~= s@);
    }
    while pos < s.len()
        invariant
            pos <= s.len(),
            out@.map_values(|w: Vec<char>| w@) + split_words(s@.subrange(pos as int, s@.len() as int), unicode)
                == split_words(s@, unicode),
        decreases s.len() - pos,
    {
        let ghost rest = s@.subrange(pos as int, s@.len() as int);
        let ghost old_out = out@.map_values(|w: Vec<char>| w@);
        if is_separator(s[pos], unicode) {
            proof {
                assert(rest.drop_first() =~= s@.subrange(pos + 1, s@.len() as int));
            }
            pos = pos + 1;
        } else {
            let mut word: Vec<char> = Vec::new();
            let mut i = pos;
            while i < s.len() && !is_separator(s[i], unicode)
                invariant
                    pos <= i <= s.len(),
                    word@ == s@.subrange(pos as int, i as int),
                    forall|j: int| pos <= j < i ==> !separator(s@[j], unicode),
                decreases s.len() - i,
            {
                word.push(s[i]);
                i = i + 1;
                assert(word@ =~= s@.subrange(pos as int, i as int));
            }
            proof {
                lemma_first_separator_unique(rest, unicode, i - pos);
                assert(rest.subrange(0, i - pos) =~= s@.subrange(pos as int, i as int));
                assert(rest.subrange(i - pos, rest.len() as int) =~= s@.subrange(
                    i as int,
                    s@.len() as int,
                ));
            }
            out.push(word);
            proof {
                assert(out@.map_values(|w: Vec<char>| w@) =~= old_out + seq![
                    s@.subrange(pos as int, i as int),
                ]);
            }
            pos = i;
        }
    }
    proof {
        assert(s@.subrange(pos as int, s@.len() as int) =~= Seq::<char>::empty());
        assert(out@.map_values(|w: Vec<char>| w@) + Seq::<Seq<char>>::empty() =~= out@.map_values(
            |w: Vec<char>| w@,
        ));
    }
    out
}

/// Splits a text into its ASCII-whitespace separated words.
pub fn words_of(s: &Vec<char>) -> (out: Vec<Vec<char>>)
    ensures
        out@.map_values(|w: Vec<char>| w@) == words(s@),
{
    split_words_of(s, false)
}

/// Splits a text into its Unicode-whitespace separated words.
pub fn unicode_words_of(s: &Vec<char>) -> (out: Vec<Vec<char>>)
    ensures
        out@.map_values(|w: Vec<char>| w@) == unicode_words(s@),
{
    split_words_of(s, true)
}

/// Is `c` Unicode whitespace?
pub fn is_unicode_space(c: char) -> (b: bool)
    ensures
        b == unicode_space(c),
{
    let x = c as u32;
    (0x09 <= x && x <= 0x0d) || x == 0x20 || x == 0x85 || x == 0xa0 || x == 0x1680 || (0x2000 <= x
        && x <= 0x200a) || x == 0x2028 || x == 0x2029 || x == 0x202f || x == 0x205f || x == 0x3000
}

proof fn lemma_leading_space(s: Seq<char>, i: int)
    requires
        0 <= i <= s.len(),
        forall|j: int| 0 <= j < i ==> unicode_space(s[j]),
        i < s.len() ==> !unicode_space(s[i]),
    ensures
        leading_space(s) == i,
    decreases s.len(),
{
    if s.len() > 0 && i > 0 {
        assert forall|j: int| 0 <= j < i - 1 implies unicode_space(s.drop_first()[j]) by {
            assert(s.drop_first()[j] == s[j + 1]);
        }
        lemma_leading_space(s.drop_first(), i - 1);
    }
}

proof fn lemma_trailing_space(s: Seq<char>, i: int)
    requires
        0 <= i <= s.len(),
        forall|j: int| s.len() - i <= j < s.len() ==> unicode_space(s[j]),
        i < s.len() ==> !unicode_space(s[s.len() - i - 1]),
    ensures
        trailing_space(s) == i,
    decreases s.len(),
{
    if s.len() > 0 && i > 0 {
        assert forall|j: int|
            s.drop_last().len() - (i - 1) <= j < s.drop_last().len() implies unicode_space(
            s.drop_last()[j],
        ) by {
            assert(s.drop_last()[j] == s[j]);
        }
        lemma_trailing_space(s.drop_last(), i - 1);
    }
}

/// `s` without leading and trailing Unicode whitespace.
pub fn trim_chars(s: &Vec<char>) -> (out: Vec<char>)
    ensures
        out@ == trim_text(s@),
{
    let mut start: usize = 0;
    while start < s.len() && is_unicode_space(s[start])
        invariant
            start <= s.len(),
            forall|j: int| 0 <= j < start ==> unicode_space(s@[j]),
        decreases s.len() - start,
    {
        start = start + 1;
    }
    proof {
        lemma_leading_space(s@, start as int);
    }
    let mut trailing: usize = 0;
    while trailing < s.len() && is_unicode_space(s[s.len() - trailing - 1])
        invariant
            trailing <= s.len(),
            forall|j: int| s@.len() - trailing <= j < s@.len() ==> unicode_space(s@[j]),
        decreases s.len() - trailing,
    {
        trailing = trailing + 1;
    }
    proof {
        lemma_trailing_space(s@, trailing as int);
    }
    let mut out: Vec<char> = Vec::new();
    if start < s.len() - trailing {
        let end = s.len() - trailing;
        let mut i = start;
        while i < end
            invariant
                start <= i <= end <= s.len(),
                out@ == s@.subrange(start as int, i as int),
            decreases end - i,
        {
            out.push(s[i]);
            i = i + 1;
            assert(out@ =~= s@.subrange(start as int, i as int));
        }
    }
    out
}

/// Parses an unsigned integer no larger than `max` as `str::parse` does.
pub fn parse_unsigned_exec(s: &Vec<char>, max: u64) -> (r: Option<u64>)
    ensures
        match parse_unsigned(s@, max as nat) {
            Some(v) => r == Some(v as u64),
            None => r is None,
        },
{
    let start: usize = if s.len() > 0 && s[0] == '+' { 1 } else { 0 };
    let ghost digits = if s@.len() > 0 && s@[0] == '+' { s@.drop_first() } else { s@ };
    proof {
        assert(digits =~= s@.subrange(start as int, s@.len() as int));
    }
    if start >= s.len() {
        return None;
    }
    let mut value: u64 = 0;
    let mut i = start;
    while i < s.len()
        invariant
            start <= i <= s.len(),
            start < s.len(),
            digits == s@.subrange(start as int, s@.len() as int),
            digits == (if s@.len() > 0 && s@[0] == '+' { s@.drop_first() } else { s@ }),
            all_digits(s@.subrange(start as int, i as int)),
            value as nat == digits_value(s@.subrange(start as int, i as int)),
            value <= max,
        decreases s.len() - i,
    {
        let c = s[i];
        let code = c as u32;
        proof {
            assert(s@.subrange(start as int, i + 1).drop_last() =~= s@.subrange(start as int, i as int));
        }
        if !(48 <= code && code <= 57) {
            proof {
                assert(digits[i - start] == c);
            }
            return None;
        }
        let d = (code - 48) as u64;
        if d > max || value > (max - d) / 10 {
            proof {
                assert(all_digits(s@.subrange(start as int, i + 1)));
                let v1 = digits_value(s@.subrange(start as int, i + 1));
                assert(v1 == value * 10 + d);
                assert(value * 10 + d > max) by (nonlinear_arith)
                    requires
                        d > max || value > (max - d) / 10,
                ;
                if all_digits(digits) {
                    lemma_value_prefix_monotone(digits, i + 1 - start);
                    assert(digits.subrange(0, i + 1 - start) =~= s@.subrange(start as int, i + 1));
                }
            }
            return None;
        }
        value = value * 10 + d;
        i = i + 1;
    }
    proof {
        assert(s@.subrange(start as int, s@.len() as int) == digits);
    }
    Some(value)
}

/// A longer run of digits is worth at least as much as its prefix.
proof fn lemma_value_prefix_monotone(s: Seq<char>, k: int)
    requires
        0 <= k <= s.len(),
        all_digits(s),
    ensures
        digits_value(s.subrange(0, k)) <= digits_value(s),
    decreases s.len() - k,
{
    if k < s.len() {
        lemma_value_prefix_monotone(s, k + 1);
        let t = s.subrange(0, k + 1);
        assert(t.drop_last() =~= s.subrange(0, k));
        assert(t.last() == s[k]);
        assert(48 <= (s[k] as u32));
        assert(digits_value(t) == digits_value(t.drop_last()) * 10 + ((t.last() as u32) - 48) as nat);
    } else {
        assert(s.subrange(0, k) =~= s);
    }
}

/// An ASCII hexadecimal digit, either case.
pub open spec fn hex_digit(c: char) -> bool {
    let x = c as u32;
    (48 <= x && x <= 57) || (97 <= x && x <= 102) || (65 <= x && x <= 70)
}

/// The value of a hexadecimal digit.
pub open spec fn hex_digit_value(c: char) -> nat {
    let x = c as u32;
    if x <= 57 {
        (x - 48) as nat
    } else if x >= 97 {
        (x - 87) as nat
    } else {
        (x - 55) as nat
    }
}

/// All characters are hexadecimal digits.
pub open spec fn all_hex(s: Seq<char>) -> bool {
    forall|i: int| 0 <= i < s.len() ==> hex_digit(#[trigger] s[i])
}

/// The value of a run of hexadecimal digits.
pub open spec fn hex_value(s: Seq<char>) -> nat
    decreases s.len(),
{
    if s.len() == 0 {
        0
    } else {
        hex_value(s.drop_last()) * 16 + hex_digit_value(s.last())
    }
}

/// The unsigned integer a text denotes for `from_str_radix(_, 16)`: an
/// optional `+` followed by at least one hexadecimal digit, with a value
/// up to `max`.
pub open spec fn parse_hex(s: Seq<char>, max: nat) -> Option<nat> {
    let digits = if s.len() > 0 && s[0] == '+' {
        s.drop_first()
    } else {
        s
    };
    if digits.len() > 0 && all_hex(digits) && hex_value(digits) <= max {
        Some(hex_value(digits))
    } else {
        None
    }
}

/// A longer run of hexadecimal digits is worth at least as much as its
/// prefix.
proof fn lemma_hex_prefix_monotone(s: Seq<char>, k: int)
    requires
        0 <= k <= s.len(),
        all_hex(s),
    ensures
        hex_value(s.subrange(0, k)) <= hex_value(s),
    decreases s.len() - k,
{
    if k < s.len() {
        lemma_hex_prefix_monotone(s, k + 1);
        let t = s.subrange(0, k + 1);
        assert(t.drop_last() =~= s.subrange(0, k));
    } else {
        assert(s.subrange(0, k) =~= s);
    }
}

/// Parses a hexadecimal unsigned integer no larger than `max` as
/// `from_str_radix(_, 16)` does.
pub fn parse_hex_exec(s: &Vec<char>, max: u64) -> (r: Option<u64>)
    ensures
        match parse_hex(s@, max as nat) {
            Some(v) => r == Some(v as u64),
            None => r is None,
        },
{
    let start: usize = if s.len() > 0 && s[0] == '+' { 1 } else { 0 };
    let ghost digits = if s@.len() > 0 && s@[0] == '+' { s@.drop_first() } else { s@ };
    proof {
        assert(digits =~= s@.subrange(start as int, s@.len() as int));
    }
    if start >= s.len() {
        return None;
    }
    let mut value: u64 = 0;
    let mut i = start;
    while i < s.len()
        invariant
            start <= i <= s.len(),
            start < s.len(),
            digits == s@.subrange(start as int, s@.len() as int),
            digits == (if s@.len() > 0 && s@[0] == '+' { s@.drop_first() } else { s@ }),
            all_hex(s@.subrange(start as int, i as int)),
            value as nat == hex_value(s@.subrange(start as int, i as int)),
            value <= max,
        decreases s.len() - i,
    {
        let c = s[i];
        let code = c as u32;
        proof {
            assert(s@.subrange(start as int, i + 1).drop_last() =~= s@.subrange(start as int, i as int));
        }
        let d: u64 = if 48 <= code && code <= 57 {
            (code - 48) as u64
        } else if 97 <= code && code <= 102 {
            (code - 87) as u64
        } else if 65 <= code && code <= 70 {
            (code - 55) as u64
        } else {
            proof {
                assert(digits[i - start] == c);
            }
            return None;
        };
        if d > max || value > (max - d) / 16 {
            proof {
                assert(all_hex(s@.subrange(start as int, i + 1)));
                let v1 = hex_value(s@.subrange(start as int, i + 1));
                assert(v1 == value * 16 + d);
                assert(value * 16 + d > max) by (nonlinear_arith)
                    requires
                        d > max || value > (max - d) / 16,
                ;
                if all_hex(digits) {
                    lemma_hex_prefix_monotone(digits, i + 1 - start);
                    assert(digits.subrange(0, i + 1 - start) =~= s@.subrange(start as int, i + 1));
                }
            }
            return None;
        }
        proof {
            assert(value * 16 + d <= max) by (nonlinear_arith)
                requires
                    d <= max,
                    value <= (max - d) / 16,
            ;
        }
        value = value * 16 + d;
        i = i + 1;
    }
    proof {
        assert(s@.subrange(start as int, s@.len() as int) == digits);
    }
    Some(value)
}

/// Splits a text at the first `:`.
pub fn split_once_colon(s: &Vec<char>) -> (r: Option<(Vec<char>, Vec<char>)>)
    ensures
        first_index_of(s@, ':') < s@.len() ==> (r matches Some((a, b)) && a@ == s@.subrange(
            0,
            first_index_of(s@, ':'),
        ) && b@ == s@.subrange(first_index_of(s@, ':') + 1, s@.len() as int)),
        first_index_of(s@, ':') >= s@.len() ==> r is None,
{
    let mut i: usize = 0;
    let mut head: Vec<char> = Vec::new();
    while i < s.len() && s[i] != ':'
        invariant
            i <= s.len(),
            head@ == s@.subrange(0, i as int),
            forall|j: int| 0 <= j < i ==> s@[j] != ':',
        decreases s.len() - i,
    {
        head.push(s[i]);
        i = i + 1;
        assert(head@ =~= s@.subrange(0, i as int));
    }
    proof {
        lemma_first_index_unique(s@, ':', i as int);
    }
    if i >= s.len() {
        return None;
    }
    let mut tail: Vec<char> = Vec::new();
    let mut j = i + 1;
    while j < s.len()
        invariant
            i < j <= s.len(),
            tail@ == s@.subrange(i + 1, j as int),
        decreases s.len() - j,
    {
        tail.push(s[j]);
        j = j + 1;
        assert(tail@ =~= s@.subrange(i + 1, j as int));
    }
    Some((head, tail))
}

/// Does the character vector `s` equal the literal `t`?
pub fn chars_eq_str(s: &Vec<char>, t: &str) -> (b: bool)
    ensures
        b == (s@ == t@),
{
    let u = crate::text::chars_of(t);
    if s.len() != u.len() {
        return false;
    }
    let mut i: usize = 0;
    while i < s.len()
        invariant
            i <= s.len(),
            s@.len() == u@.len(),
            u@ == t@,
            forall|j: int| 0 <= j < i ==> s@[j] == u@[j],
        decreases s.len() - i,
    {
        if s[i] != u[i] {
            return false;
        }
        i = i + 1;
    }
    assert(s@ =~= u@);
    true
}

/// Does `s` start with the literal `prefix`? If so, the rest after it.
pub fn strip_prefix_chars(s: &Vec<char>, prefix: &str) -> (r: Option<Vec<char>>)
    ensures
        crate::text::starts_with(s@, prefix@) ==> (r matches Some(rest) && rest@ == s@.subrange(
            prefix@.len() as int,
            s@.len() as int,
        )),
        !crate::text::starts_with(s@, prefix@) ==> r is None,
{
    let p = crate::text::chars_of(prefix);
    if p.len() > s.len() {
        return None;
    }
    let mut i: usize = 0;
    while i < p.len()
        invariant
            i <= p.len() <= s.len(),
            p@ == prefix@,
            forall|j: int| 0 <= j < i ==> s@[j] == p@[j],
        decreases p.len() - i,
    {
        if s[i] != p[i] {
            proof {
                assert(s@.subrange(0, p@.len() as int)[i as int] != p@[i as int]);
            }
            return None;
        }
        i = i + 1;
    }
    proof {
        assert(s@.subrange(0, p@.len() as int) =~= p@);
    }
    let mut rest: Vec<char> = Vec::new();
    let mut j = p.len();
    while j < s.len()
        invariant
            p.len() <= j <= s.len(),
            rest@ == s@.subrange(p@.len() as int, j as int),
        decreases s.len() - j,
    {
        rest.push(s[j]);
        j = j + 1;
        assert(rest@ =~= s@.subrange(p@.len() as int, j as int));
    }
    Some(rest)
}

} // verus!
