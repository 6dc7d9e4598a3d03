//! Character-level helpers shared by the parsers and by label formatting.
//!
//! Strings are modelled by their `Seq<char>` views. The few std conversions
//! between `str`/`String` and character vectors are trusted wrappers; the
//! rest (decimal formatting, ASCII case folding, substring search) is
//! written and proved here.
use vstd::prelude::*;

verus! {

/// The ASCII digit for a value below ten.
pub open spec fn digit_char(d: nat) -> char {
    if d == 0 { '0' }
    else if d == 1 { '1' }
    else if d == 2 { '2' }
    else if d == 3 { '3' }
    else if d == 4 { '4' }
    else if d == 5 { '5' }
    else if d == 6 { '6' }
    else if d == 7 { '7' }
    else if d == 8 { '8' }
    else { '9' }
}

/// Base-ten rendering of a natural number, without sign or padding.
pub open spec fn decimal(n: nat) -> Seq<char>
    decreases n,
{
    if n < 10 {
        seq![digit_char(n)]
    } else {
        decimal(n / 10).push(digit_char(n % 10))
    }
}

/// An ASCII decimal digit.
pub open spec fn is_digit(c: char) -> bool {
    '0' <= c && c <= '9'
}

/// Decimal text is a non-empty run of ASCII digits.
pub proof fn lemma_decimal_digits(n: nat)
    ensures
        decimal(n).len() >= 1,
        forall|i: int| 0 <= i < decimal(n).len() ==> is_digit(#[trigger] decimal(n)[i]),
    decreases n,
{
    if n >= 10 {
        lemma_decimal_digits(n / 10);
    }
}

/// Ten to the power `k`.
pub open spec fn ten_pow(k: nat) -> nat
    decreases k,
{
    if k == 0 {
        1
    } else {
        10 * ten_pow((k - 1) as nat)
    }
}

/// A number below `10^k` has at most `k` digits.
pub proof fn lemma_decimal_len(n: nat, k: nat)
    requires
        1 <= k,
        n < ten_pow(k),
    ensures
        decimal(n).len() <= k,
    decreases n,
{
    if n >= 10 {
        if k == 1 {
            reveal_with_fuel(ten_pow, 2);
        } else {
            lemma_decimal_len(n / 10, (k - 1) as nat);
        }
    }
}

/// A `u32` has at most ten digits.
pub proof fn lemma_decimal_u32_len(n: u32)
    ensures
        decimal(n as nat).len() <= 10,
{
    assert(ten_pow(10) == 10_000_000_000) by {
        reveal_with_fuel(ten_pow, 11);
    }
    lemma_decimal_len(n as nat, 10);
}

/// Distinct numbers have distinct renderings.
pub proof fn lemma_decimal_injective(a: nat, b: nat)
    requires
        decimal(a) == decimal(b),
    ensures
        a == b,
    decreases a,
{
    lemma_decimal_digits(a / 10);
    lemma_decimal_digits(b / 10);
    if a < 10 && b < 10 {
        assert(decimal(a)[0] == digit_char(a));
        assert(decimal(b)[0] == digit_char(b));
    } else if a >= 10 && b >= 10 {
        assert(decimal(a / 10) =~= decimal(a).drop_last());
        assert(decimal(b / 10) =~= decimal(b).drop_last());
        lemma_decimal_injective(a / 10, b / 10);
        assert(decimal(a).last() == digit_char(a % 10));
        assert(decimal(b).last() == digit_char(b % 10));
    } else if a < 10 {
        assert(decimal(a).len() == 1);
        assert(decimal(b).len() == decimal(b / 10).len() + 1);
    } else {
        assert(decimal(b).len() == 1);
        assert(decimal(a).len() == decimal(a / 10).len() + 1);
    }
}

/// Base-ten rendering of a signed integer, with a leading `-` when negative.
pub open spec fn signed_decimal(n: int) -> Seq<char> {
    if n < 0 {
        seq!['-'] + decimal((-n) as nat)
    } else {
        decimal(n as nat)
    }
}

/// Base-ten rendering left-padded with zeros to at least `width` characters.
pub open spec fn zero_padded(n: nat, width: nat) -> Seq<char> {
    let digits = decimal(n);
    if digits.len() >= width {
        digits
    } else {
        Seq::new((width - digits.len()) as nat, |i: int| '0') + digits
    }
}

/// ASCII case folding of one character; other characters are unchanged.
pub open spec fn lower_char(c: char) -> char {
    if 'A' <= c && c <= 'Z' {
        ((c as u32) + 32) as char
    } else {
        c
    }
}

/// ASCII case folding of a whole string.
pub open spec fn ascii_lower(s: Seq<char>) -> Seq<char> {
    Seq::new(s.len(), |i: int| lower_char(s[i]))
}

/// `needle` occurs in `haystack` starting at `start`.
pub open spec fn occurs_at(haystack: Seq<char>, needle: Seq<char>, start: int) -> bool {
    0 <= start && start + needle.len() <= haystack.len()
        && haystack.subrange(start, start + needle.len()) == needle
}

/// `needle` occurs somewhere in `haystack` (the empty needle always does).
pub open spec fn contains_seq(haystack: Seq<char>, needle: Seq<char>) -> bool {
    exists|start: int| occurs_at(haystack, needle, start)
}

/// `prefix` begins `s`.
pub open spec fn starts_with(s: Seq<char>, prefix: Seq<char>) -> bool {
    prefix.len() <= s.len() && s.subrange(0, prefix.len() as int) == prefix
}

/// `suffix` ends `s`.
pub open spec fn ends_with(s: Seq<char>, suffix: Seq<char>) -> bool {
    suffix.len() <= s.len() && s.subrange(s.len() - suffix.len(), s.len() as int) == suffix
}

/// Control characters in the sense of `char::is_control` (Unicode general
/// category Cc: U+0000..U+001F and U+007F..U+009F).
pub open spec fn is_control(c: char) -> bool {
    (c as u32) <= 0x1f || (0x7f <= (c as u32) && (c as u32) <= 0x9f)
}

/// The characters of `s` that are not control characters, in order.
pub open spec fn without_controls(s: Seq<char>) -> Seq<char>
    decreases s.len(),
{
    if s.len() == 0 {
        s
    } else if is_control(s.last()) {
        without_controls(s.drop_last())
    } else {
        without_controls(s.drop_last()).push(s.last())
    }
}

/// At most the first `limit` non-control characters of `s`.
pub open spec fn bounded_text(s: Seq<char>, limit: nat) -> Seq<char> {
    let kept = without_controls(s);
    if kept.len() <= limit {
        kept
    } else {
        kept.subrange(0, limit as int)
    }
}

/// The characters of a string slice, as a vector.
pub fn chars_of(s: &str) -> (v: Vec<char>)
    ensures
        v@ == s@,
{
    let mut v: Vec<char> = Vec::new();
    for c in it: s.chars()
        invariant
            it.seq() == s@,
            v@ == s@.take(it.index() as int),
    {
        v.push(c);
        assert(v@ =~= s@.take(it.index() + 1));
    }
    assert(v@ =~= s@);
    v
}

/// `String::push`: appends one character to the string, as its
/// documentation states.
#[verifier::external_body]
fn push_char(s: &mut String, c: char)
    ensures
        final(s)@ == old(s)@.push(c),
{
    s.push(c)
}

/// A string holding exactly the given characters.
pub fn string_from_chars(v: &[char]) -> (s: String)
    ensures
        s@ == v@,
{
    let mut s = String::new();
    let mut i: usize = 0;
    while i < v.len()
        invariant
            i <= v@.len(),
            s@ == v@.take(i as int),
        decreases v.len() - i,
    {
        push_char(&mut s, v[i]);
        i = i + 1;
        assert(s@ =~= v@.take(i as int));
    }
    assert(v@.take(v@.len() as int) =~= v@);
    s
}

/// A string holding the characters `v[from..to]`.
pub fn string_from_range(v: &Vec<char>, from: usize, to: usize) -> (s: String)
    requires
        from <= to <= v.len(),
    ensures
        s@ == v@.subrange(from as int, to as int),
{
    let mut part: Vec<char> = Vec::new();
    let mut i = from;
    while i < to
        invariant
            from <= i <= to <= v.len(),
            part@ == v@.subrange(from as int, i as int),
        decreases to - i,
    {
        part.push(v[i]);
        i = i + 1;
    }
    string_from_chars(part.as_slice())
}

fn digit_str(d: u64) -> (s: &'static str)
    requires
        d < 10,
    ensures
        s@ == seq![digit_char(d as nat)],
{
    proof {
        reveal_strlit("0");
        reveal_strlit("1");
        reveal_strlit("2");
        reveal_strlit("3");
        reveal_strlit("4");
        reveal_strlit("5");
        reveal_strlit("6");
        reveal_strlit("7");
        reveal_strlit("8");
        reveal_strlit("9");
    }
    if d == 0 { "0" }
    else if d == 1 { "1" }
    else if d == 2 { "2" }
    else if d == 3 { "3" }
    else if d == 4 { "4" }
    else if d == 5 { "5" }
    else if d == 6 { "6" }
    else if d == 7 { "7" }
    else if d == 8 { "8" }
    else { "9" }
}

/// Decimal text of an unsigned integer, as `to_string` renders it.
pub fn u64_text(n: u64) -> (s: String)
    ensures
        s@ == decimal(n as nat),
    decreases n,
{
    if n < 10 {
        String::from_str(digit_str(n))
    } else {
        let mut s = u64_text(n / 10);
        s.append(digit_str(n % 10));
        s
    }
}

/// Decimal text of a signed integer, as `to_string` renders it.
pub fn i64_text(n: i64) -> (s: String)
    ensures
        s@ == signed_decimal(n as int),
{
    if n < 0 {
        let magnitude: u64 = if n == i64::MIN {
            9_223_372_036_854_775_808u64
        } else {
            (-n) as u64
        };
        let mut s = String::from_str("-");
        let digits = u64_text(magnitude);
        s.append(digits.as_str());
        proof {
            reveal_strlit("-");
        }
        s
    } else {
        u64_text(n as u64)
    }
}

/// Decimal text left-padded with zeros to `width` characters, as
/// `format!("{:0width$}")` renders an unsigned integer.
pub fn zero_padded_text(n: u64, width: usize) -> (s: String)
    ensures
        s@ == zero_padded(n as nat, width as nat),
{
    let digits = u64_text(n);
    let count = digits.as_str().unicode_len();
    if count >= width {
        digits
    } else {
        let mut zeros: Vec<char> = Vec::new();
        let mut i: usize = 0;
        while i < width - count
            invariant
                count < width,
                i <= width - count,
                zeros@ == Seq::new(i as nat, |j: int| '0'),
            decreases width - count - i,
        {
            zeros.push('0');
            i = i + 1;
            assert(zeros@ =~= Seq::new(i as nat, |j: int| '0'));
        }
        let mut s = string_from_chars(zeros.as_slice());
        s.append(digits.as_str());
        s
    }
}

/// The lowercase hexadecimal digit for a value below sixteen.
pub open spec fn hex_char(d: nat) -> char {
    if d < 10 {
        digit_char(d)
    } else if d == 10 { 'a' }
    else if d == 11 { 'b' }
    else if d == 12 { 'c' }
    else if d == 13 { 'd' }
    else if d == 14 { 'e' }
    else { 'f' }
}

/// The `width` lowest hexadecimal digits of `n`, lowercase, most
/// significant first: `format!("{:016x}")` for a `u64` and width 16.
pub open spec fn hex_fixed(n: nat, width: nat) -> Seq<char>
    decreases width,
{
    if width == 0 {
        Seq::empty()
    } else {
        hex_fixed(n / 16, (width - 1) as nat).push(hex_char(n % 16))
    }
}

/// The lowercase hexadecimal digit for a value below sixteen.
fn hex_digit_char(d: u64) -> (c: char)
    requires
        d < 16,
    ensures
        c == hex_char(d as nat),
{
    if d == 0 { '0' }
    else if d == 1 { '1' }
    else if d == 2 { '2' }
    else if d == 3 { '3' }
    else if d == 4 { '4' }
    else if d == 5 { '5' }
    else if d == 6 { '6' }
    else if d == 7 { '7' }
    else if d == 8 { '8' }
    else if d == 9 { '9' }
    else if d == 10 { 'a' }
    else if d == 11 { 'b' }
    else if d == 12 { 'c' }
    else if d == 13 { 'd' }
    else if d == 14 { 'e' }
    else { 'f' }
}

/// The `width` lowest hexadecimal digits of `n`, lowercase:
/// `format!("{:0width$x}")` for a value below `16^width`.
pub fn hex_fixed_text(n: u64, width: usize) -> (s: String)
    requires
        width <= 16,
    ensures
        s@ == hex_fixed(n as nat, width as nat),
{
    let ghost w = width as nat;
    let mut digits: Vec<char> = Vec::new();
    let mut k: usize = 0;
    let mut m: u64 = n;
    proof {
        assert(pow16(0) == 1);
        assert((n as nat) / 1 == n as nat);
    }
    while k < width
        invariant
            k <= width <= 16,
            w == width,
            digits.len() == k,
            forall|i: int| 0 <= i < k ==> #[trigger] digits@[i] == hex_fixed(n as nat, w)[w - 1 - i],
            m as nat == (n as nat) / pow16(k as nat),
        decreases width - k,
    {
        proof {
            lemma_hex_fixed_digit(n as nat, w, k as nat);
        }
        digits.push(hex_digit_char(m % 16));
        proof {
            lemma_pow16_step(n as nat, k as nat);
        }
        m = m / 16;
        k = k + 1;
    }
    let mut out: Vec<char> = Vec::new();
    let mut j: usize = width;
    while j > 0
        invariant
            j <= width <= 16,
            w == width,
            digits.len() == width,
            forall|i: int| 0 <= i < w ==> #[trigger] digits@[i] == hex_fixed(n as nat, w)[w - 1 - i],
            out@ == hex_fixed(n as nat, w).subrange(0, w - j),
        decreases j,
    {
        j = j - 1;
        out.push(digits[j]);
        proof {
            lemma_hex_fixed_len(n as nat, w);
            assert(out@ =~= hex_fixed(n as nat, w).subrange(0, w - j));
        }
    }
    proof {
        lemma_hex_fixed_len(n as nat, w);
        assert(out@ =~= hex_fixed(n as nat, w));
    }
    string_from_chars(out.as_slice())
}

/// Sixteen lowercase hexadecimal digits, as `format!("{:016x}")` renders
/// a `u64`.
pub fn hex16_text(n: u64) -> (s: String)
    ensures
        s@ == hex_fixed(n as nat, 16),
{
    hex_fixed_text(n, 16)
}

/// `16` to the power `k`.
pub open spec fn pow16(k: nat) -> nat
    decreases k,
{
    if k == 0 {
        1
    } else {
        16 * pow16((k - 1) as nat)
    }
}

proof fn lemma_pow16_positive(k: nat)
    ensures
        pow16(k) >= 1,
    decreases k,
{
    if k > 0 {
        lemma_pow16_positive((k - 1) as nat);
    }
}

proof fn lemma_pow16_step(n: nat, k: nat)
    ensures
        (n / pow16(k)) / 16 == n / pow16(k + 1),
{
    lemma_pow16_positive(k);
    assert(pow16(k + 1) == 16 * pow16(k));
    vstd::arithmetic::div_mod::lemma_div_denominator(n as int, pow16(k) as int, 16);
    assert(pow16(k) * 16 == 16 * pow16(k)) by (nonlinear_arith);
}

proof fn lemma_hex_fixed_len(n: nat, width: nat)
    ensures
        hex_fixed(n, width).len() == width,
    decreases width,
{
    if width > 0 {
        lemma_hex_fixed_len(n / 16, (width - 1) as nat);
    }
}

/// Digit `width - 1 - k` of the fixed rendering is the `k`th digit from
/// the right.
proof fn lemma_hex_fixed_digit(n: nat, width: nat, k: nat)
    requires
        k < width,
    ensures
        hex_fixed(n, width)[width - 1 - k] == hex_char((n / pow16(k)) % 16),
    decreases width,
{
    lemma_hex_fixed_len(n, width);
    lemma_hex_fixed_len(n / 16, (width - 1) as nat);
    let prefix = hex_fixed(n / 16, (width - 1) as nat);
    assert(hex_fixed(n, width) == prefix.push(hex_char(n % 16)));
    if k > 0 {
        lemma_hex_fixed_digit(n / 16, (width - 1) as nat, (k - 1) as nat);
        lemma_pow16_positive((k - 1) as nat);
        vstd::arithmetic::div_mod::lemma_div_denominator(n as int, 16, pow16((k - 1) as nat) as int);
        assert(pow16(k) == 16 * pow16((k - 1) as nat));
        assert(hex_fixed(n, width)[width - 1 - k] == prefix[width - 1 - k]);
    } else {
        assert(pow16(0) == 1);
        assert(n / 1 == n);
    }
}

/// ASCII case folding of one character.
pub fn lower(c: char) -> (r: char)
    ensures
        r == lower_char(c),
{
    if 'A' <= c && c <= 'Z' {
        let code: u8 = (c as u8) + 32;
        code as char
    } else {
        c
    }
}

/// ASCII case folding of a string, as `to_ascii_lowercase` does.
pub fn to_ascii_lower(s: &str) -> (v: Vec<char>)
    ensures
        v@ == ascii_lower(s@),
{
    let chars = chars_of(s);
    let mut out: Vec<char> = Vec::new();
    let mut i: usize = 0;
    while i < chars.len()
        invariant
            i <= chars.len(),
            chars@ == s@,
            out@ == Seq::new(i as nat, |j: int| lower_char(chars@[j])),
        decreases chars.len() - i,
    {
        out.push(lower(chars[i]));
        i = i + 1;
        assert(out@ =~= Seq::new(i as nat, |j: int| lower_char(chars@[j])));
    }
    assert(out@ =~= ascii_lower(s@));
    out
}

/// Does `needle` occur in `haystack` at `start`?
pub fn occurs_at_exec(haystack: &Vec<char>, needle: &Vec<char>, start: usize) -> (b: bool)
    ensures
        b == occurs_at(haystack@, needle@, start as int),
{
    if start > haystack.len() || needle.len() > haystack.len() - start {
        return false;
    }
    let mut i: usize = 0;
    while i < needle.len()
        invariant
            start + needle.len() <= haystack.len(),
            i <= needle.len(),
            forall|j: int| 0 <= j < i ==> haystack@[start + j] == needle@[j],
        decreases needle.len() - i,
    {
        if haystack[start + i] != needle[i] {
            assert(haystack@.subrange(start as int, start + needle.len())[i as int] != needle@[i as int]);
            return false;
        }
        i = i + 1;
    }
    assert(haystack@.subrange(start as int, start + needle.len()) =~= needle@);
    true
}

/// Substring search over character vectors.
pub fn contains_chars(haystack: &Vec<char>, needle: &Vec<char>) -> (b: bool)
    ensures
        b == contains_seq(haystack@, needle@),
{
    if needle.len() > haystack.len() {
        return false;
    }
    let limit = haystack.len() - needle.len();
    let mut start: usize = 0;
    loop
        invariant
            needle.len() <= haystack.len(),
            limit == haystack.len() - needle.len(),
            start <= limit,
            forall|k: int| 0 <= k < start ==> !occurs_at(haystack@, needle@, k),
        ensures
            forall|k: int| 0 <= k <= limit ==> !occurs_at(haystack@, needle@, k),
        decreases limit - start,
    {
        if occurs_at_exec(haystack, needle, start) {
            return true;
        }
        if start == limit {
            break;
        }
        start = start + 1;
    }
    assert forall|k: int| !occurs_at(haystack@, needle@, k) by {
        if 0 <= k && k + needle@.len() <= haystack@.len() {
            assert(k <= limit);
        }
    }
    false
}

/// Does the string `haystack` contain the string `needle`?
pub fn str_contains(haystack: &str, needle: &str) -> (b: bool)
    ensures
        b == contains_seq(haystack@, needle@),
{
    let h = chars_of(haystack);
    let n = chars_of(needle);
    contains_chars(&h, &n)
}

/// Does the character vector `haystack` contain the string `needle`?
pub fn chars_contain(haystack: &Vec<char>, needle: &str) -> (b: bool)
    ensures
        b == contains_seq(haystack@, needle@),
{
    let n = chars_of(needle);
    contains_chars(haystack, &n)
}

/// Does `s` start with `prefix`?
pub fn str_starts_with(s: &str, prefix: &str) -> (b: bool)
    ensures
        b == starts_with(s@, prefix@),
{
    let h = chars_of(s);
    let p = chars_of(prefix);
    let b = occurs_at_exec(&h, &p, 0);
    proof {
        if b {
            assert(starts_with(s@, prefix@));
        }
        if starts_with(s@, prefix@) {
            assert(occurs_at(h@, p@, 0));
        }
    }
    b
}

/// Does `s` end with `suffix`?
pub fn str_ends_with(s: &str, suffix: &str) -> (b: bool)
    ensures
        b == ends_with(s@, suffix@),
{
    let h = chars_of(s);
    let p = chars_of(suffix);
    if p.len() > h.len() {
        return false;
    }
    occurs_at_exec(&h, &p, h.len() - p.len())
}

/// Are two strings equal?
pub fn str_eq(a: &str, b: &str) -> (r: bool)
    ensures
        r == (a@ == b@),
{
    let x = chars_of(a);
    let y = chars_of(b);
    if x.len() != y.len() {
        return false;
    }
    let r = occurs_at_exec(&x, &y, 0);
    proof {
        if r {
            assert(x@ =~= x@.subrange(0, y@.len() as int));
        }
        if a@ == b@ {
            assert(x@.subrange(0, y@.len() as int) =~= y@);
        }
    }
    r
}

/// The non-control characters of `s`, at most `limit` of them.
pub fn bounded_text_exec(s: &str, limit: usize) -> (r: String)
    ensures
        r@ == bounded_text(s@, limit as nat),
{
    let chars = chars_of(s);
    let mut kept: Vec<char> = Vec::new();
    let mut i: usize = 0;
    while i < chars.len()
        invariant
            i <= chars.len(),
            chars@ == s@,
            kept@ == without_controls(chars@.subrange(0, i as int)),
        decreases chars.len() - i,
    {
        let c = chars[i];
        proof {
            assert(chars@.subrange(0, i + 1).drop_last() =~= chars@.subrange(0, i as int));
        }
        if !(c as u32 <= 0x1f || (0x7f <= c as u32 && c as u32 <= 0x9f)) {
            kept.push(c);
        }
        i = i + 1;
    }
    assert(chars@.subrange(0, chars@.len() as int) =~= s@);
    if kept.len() <= limit {
        string_from_chars(kept.as_slice())
    } else {
        string_from_range(&kept, 0, limit)
    }
}

/// `a` followed by `b`.
pub fn concat2(a: &str, b: &str) -> (s: String)
    ensures
        s@ == a@ + b@,
{
    let mut s = String::from_str(a);
    s.append(b);
    s
}

/// `a`, `b` and `c` in turn.
pub fn concat3(a: &str, b: &str, c: &str) -> (s: String)
    ensures
        s@ == a@ + b@ + c@,
{
    let mut s = String::from_str(a);
    s.append(b);
    s.append(c);
    s
}

/// `prefix` followed by the decimal digits of `n`.
pub fn with_number(prefix: &str, n: u64) -> (s: String)
    ensures
        s@ == prefix@ + decimal(n as nat),
{
    let digits = u64_text(n);
    concat2(prefix, digits.as_str())
}

/// `prefix`, the decimal digits of `n`, then `suffix`.
pub fn around_number(prefix: &str, n: u64, suffix: &str) -> (s: String)
    ensures
        s@ == prefix@ + decimal(n as nat) + suffix@,
{
    let digits = u64_text(n);
    concat3(prefix, digits.as_str(), suffix)
}

/// A path as `Path::display` writes it, through `format!`. Nothing is
/// stated of the text: it depends on how the platform renders the path's
/// bytes.
#[verifier::external_body]
pub(crate) fn path_text(path: &std::path::PathBuf) -> String {
    format!("{}", path.display())
}

/// The operating system's description of an I/O error, as `format!`
/// writes it. Nothing is stated of the text: it comes from the platform.
#[verifier::external_body]
pub(crate) fn io_error_text(error: &std::io::Error) -> String {
    format!("{error}")
}

} // verus!
