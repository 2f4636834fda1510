//! Characters and character sequences: classes, runs, trimming, case
//! folding, and decimal numbers.

use vstd::prelude::*;

verus! {

/// `String::push` appends the character to the end of the string and leaves
/// what stood there as it was.
pub assume_specification[ String::push ](s: &mut String, c: char)
    ensures
        final(s)@ == old(s)@.push(c),
;

/// The character classes that the parsers scan for.
#[derive(Clone, Copy, Debug, PartialEq, Eq, Structural)]
pub enum Class {
    /// Anything that may stand in a host: all but `:`, `/`, `?` and `#`.
    Host,
    /// The decimal digits `0` to `9`.
    Digit,
    /// Unicode white space.
    Space,
    /// Anything that may stand in a line: all but the line feed.
    Line,
}

/// The characters with the Unicode property `White_Space`.
pub open spec fn is_whitespace(c: char) -> bool {
    let n = c as u32;
    ||| 0x09 <= n <= 0x0d
    ||| n == 0x20
    ||| n == 0x85
    ||| n == 0xa0
    ||| n == 0x1680
    ||| 0x2000 <= n <= 0x200a
    ||| n == 0x2028
    ||| n == 0x2029
    ||| n == 0x202f
    ||| n == 0x205f
    ||| n == 0x3000
}

/// The decimal digits `0` to `9`.
pub open spec fn is_digit(c: char) -> bool {
    '0' <= c && c <= '9'
}

/// The characters that end a host: `:`, `/`, `?` and `#`.
pub open spec fn is_delimiter(c: char) -> bool {
    c == ':' || c == '/' || c == '?' || c == '#'
}

/// Whether `c` belongs to `class`.
pub open spec fn member(class: Class, c: char) -> bool {
    match class {
        Class::Host => !is_delimiter(c),
        Class::Digit => is_digit(c),
        Class::Space => is_whitespace(c),
        Class::Line => c != '\n',
    }
}

/// Where the longest run of `class` characters that starts at `from` ends.
pub open spec fn run_end(s: Seq<char>, from: int, class: Class) -> int
    decreases s.len() - from,
{
    if 0 <= from < s.len() && member(class, s[from]) {
        run_end(s, from + 1, class)
    } else {
        from
    }
}

/// Where the longest run of `class` characters that ends at `to` starts,
/// without going below `low`.
pub open spec fn run_start(s: Seq<char>, low: int, to: int, class: Class) -> int
    decreases to,
{
    if low < to <= s.len() && 0 < to && member(class, s[to - 1]) {
        run_start(s, low, to - 1, class)
    } else {
        to
    }
}

/// The index of the first `c` at or after `from`, or the length of `s` if
/// there is none.
pub open spec fn position(s: Seq<char>, c: char, from: int) -> int
    decreases s.len() - from,
{
    if 0 <= from < s.len() && s[from] != c {
        position(s, c, from + 1)
    } else if from < s.len() {
        from
    } else {
        s.len() as int
    }
}

/// `s` without its leading and trailing white space.
pub open spec fn trim(s: Seq<char>) -> Seq<char> {
    let a = run_end(s, 0, Class::Space);
    let b = run_start(s, a, s.len() as int, Class::Space);
    s.subrange(a, b)
}

/// The lower-case form of an ASCII capital; every other character as it is.
pub open spec fn lower(c: char) -> char {
    if 'A' <= c && c <= 'Z' {
        ((c as u8) + 32) as char
    } else {
        c
    }
}

/// `s` with every ASCII capital in lower case.
pub open spec fn lowered(s: Seq<char>) -> Seq<char> {
    Seq::new(s.len(), |i: int| lower(s[i]))
}

/// The value of one decimal digit.
pub open spec fn digit_value(c: char) -> nat {
    if '0' <= c && c <= '9' {
        (c as u32 - 48) as nat
    } else {
        0
    }
}

/// The number that the decimal digits `s` stand for.
pub open spec fn decimal(s: Seq<char>) -> nat
    decreases s.len(),
{
    if s.len() == 0 {
        0
    } else {
        decimal(s.drop_last()) * 10 + digit_value(s.last())
    }
}

/// The decimal digit for `d`, which is below ten.
pub open spec fn digit_char(d: nat) -> char {
    (48 + d) as u8 as char
}

/// The decimal digits of `n`, without leading zeros.
pub open spec fn digits_of(n: nat) -> Seq<char>
    decreases n,
{
    if n < 10 {
        seq![digit_char(n)]
    } else {
        digits_of(n / 10).push(digit_char(n % 10))
    }
}

/// A run ends inside the sequence, holds only members, and stops at a
/// non-member or at the end.
pub proof fn lemma_run_end(s: Seq<char>, from: int, class: Class)
    requires
        0 <= from <= s.len(),
    ensures
        from <= run_end(s, from, class) <= s.len(),
        forall|i: int| from <= i < run_end(s, from, class) ==> member(class, #[trigger] s[i]),
        run_end(s, from, class) < s.len() ==> !member(class, s[run_end(s, from, class)]),
    decreases s.len() - from,
{
    if from < s.len() && member(class, s[from]) {
        lemma_run_end(s, from + 1, class);
    }
}

/// The only index with the properties of `lemma_run_end` is the run's end.
pub proof fn lemma_run_end_unique(s: Seq<char>, from: int, class: Class, end: int)
    requires
        0 <= from <= end <= s.len(),
        forall|i: int| from <= i < end ==> member(class, #[trigger] s[i]),
        end < s.len() ==> !member(class, s[end]),
    ensures
        run_end(s, from, class) == end,
    decreases end - from,
{
    if from < end {
        lemma_run_end_unique(s, from + 1, class, end);
    }
}

/// A backward run starts at or above `low`, holds only members, and stops
/// at a non-member or at `low`.
pub proof fn lemma_run_start(s: Seq<char>, low: int, to: int, class: Class)
    requires
        0 <= low <= to <= s.len(),
    ensures
        low <= run_start(s, low, to, class) <= to,
        forall|i: int|
            run_start(s, low, to, class) <= i < to ==> member(class, #[trigger] s[i]),
        low < run_start(s, low, to, class) ==> !member(
            class,
            s[run_start(s, low, to, class) - 1],
        ),
    decreases to,
{
    if low < to && member(class, s[to - 1]) {
        lemma_run_start(s, low, to - 1, class);
    }
}

/// Lowering what is lowered changes nothing.
pub proof fn lemma_lowered_twice(s: Seq<char>)
    ensures
        lowered(lowered(s)) == lowered(s),
{
    assert(lowered(lowered(s)) =~= lowered(s));
}

/// Trimming what is trimmed changes nothing.
pub proof fn lemma_trim_twice(s: Seq<char>)
    ensures
        trim(trim(s)) == trim(s),
{
    let a = run_end(s, 0, Class::Space);
    lemma_run_end(s, 0, Class::Space);
    lemma_run_start(s, a, s.len() as int, Class::Space);
    assert(trim(trim(s)) =~= trim(s));
}

/// A number never shrinks when digits are added behind it.
pub proof fn lemma_decimal_prefix(s: Seq<char>, n: int)
    requires
        0 <= n <= s.len(),
    ensures
        decimal(s.take(n)) <= decimal(s),
    decreases s.len() - n,
{
    if n < s.len() {
        assert(s.drop_last().take(n) == s.take(n));
        lemma_decimal_prefix(s.drop_last(), n);
    } else {
        assert(s.take(n) == s);
    }
}

/// What the digits of a number are: at least one, all decimal, and they
/// stand for the number.
pub proof fn lemma_digits_of(n: nat)
    ensures
        digits_of(n).len() >= 1,
        forall|i: int| 0 <= i < digits_of(n).len() ==> is_digit(#[trigger] digits_of(n)[i]),
        decimal(digits_of(n)) == n,
    decreases n,
{
    if n < 10 {
        assert(decimal(digits_of(n).drop_last()) == 0);
    } else {
        lemma_digits_of(n / 10);
        assert(digits_of(n).drop_last() =~= digits_of(n / 10));
    }
}

/// Whether `c` belongs to `class`.
pub fn in_class(class: Class, c: char) -> (r: bool)
    ensures
        r == member(class, c),
{
    match class {
        Class::Host => !(c == ':' || c == '/' || c == '?' || c == '#'),
        Class::Digit => '0' <= c && c <= '9',
        Class::Space => {
            let n: u32 = c as u32;
            (0x09 <= n && n <= 0x0d) || n == 0x20 || n == 0x85 || n == 0xa0 || n == 0x1680 || (
            0x2000 <= n && n <= 0x200a) || n == 0x2028 || n == 0x2029 || n == 0x202f || n
                == 0x205f || n == 0x3000
        },
        Class::Line => c != '\n',
    }
}

/// The characters of `s`, one element each.
pub fn to_chars(s: &str) -> (v: Vec<char>)
    ensures
        v@ == s@,
{
    let mut v: Vec<char> = Vec::new();
    for c in it: s.chars()
        invariant
            it.seq() == s@,
            v@ == it.seq().take(it.index() as int),
    {
        v.push(c);
    }
    v
}

/// The characters `from..to` of `v` as a string.
pub(crate) fn to_text(v: &Vec<char>, from: usize, to: usize) -> (s: String)
    requires
        from <= to <= v.len(),
    ensures
        s@ == v@.subrange(from as int, to as int),
{
    let mut s = String::new();
    let mut i: usize = from;
    while i < to
        invariant
            from <= i <= to <= v.len(),
            s@ == v@.subrange(from as int, i as int),
        decreases to - i,
    {
        s.push(v[i]);
        assert(v@.subrange(from as int, i + 1) == v@.subrange(from as int, i as int).push(
            v@[i as int],
        ));
        i += 1;
    }
    s
}

/// Scans forward from `from` over the characters of `class`.
pub(crate) fn scan(v: &Vec<char>, from: usize, class: Class) -> (end: usize)
    requires
        from <= v.len(),
    ensures
        end == run_end(v@, from as int, class),
        from <= end <= v.len(),
{
    let mut i: usize = from;
    while i < v.len() && in_class(class, v[i])
        invariant
            from <= i <= v.len(),
            run_end(v@, from as int, class) == run_end(v@, i as int, class),
        decreases v.len() - i,
    {
        i += 1;
    }
    i
}

/// Scans backward from `to` over the characters of `class`, down to `low`.
pub(crate) fn scan_back(v: &Vec<char>, low: usize, to: usize, class: Class) -> (start: usize)
    requires
        low <= to <= v.len(),
    ensures
        start == run_start(v@, low as int, to as int, class),
        low <= start <= to,
{
    let mut i: usize = to;
    while i > low && in_class(class, v[i - 1])
        invariant
            low <= i <= to <= v.len(),
            run_start(v@, low as int, to as int, class) == run_start(
                v@,
                low as int,
                i as int,
                class,
            ),
        decreases i,
    {
        i -= 1;
    }
    i
}

/// Finds the first `c` at or after `from`.
pub(crate) fn find(v: &Vec<char>, c: char, from: usize) -> (at: usize)
    requires
        from <= v.len(),
    ensures
        at == position(v@, c, from as int),
        from <= at <= v.len(),
{
    let mut i: usize = from;
    while i < v.len() && v[i] != c
        invariant
            from <= i <= v.len(),
            position(v@, c, from as int) == position(v@, c, i as int),
        decreases v.len() - i,
    {
        i += 1;
    }
    i
}

/// The lower-case form of an ASCII capital; every other character as it is.
pub fn to_lower(c: char) -> (r: char)
    ensures
        r == lower(c),
{
    if 'A' <= c && c <= 'Z' {
        let b: u8 = c as u8;
        (b + 32) as char
    } else {
        c
    }
}

/// The characters `from..to` of `v`, every ASCII capital in lower case, as a
/// string.
pub(crate) fn to_lower_text(v: &Vec<char>, from: usize, to: usize) -> (s: String)
    requires
        from <= to <= v.len(),
    ensures
        s@ == lowered(v@.subrange(from as int, to as int)),
{
    let mut s = String::new();
    let mut i: usize = from;
    while i < to
        invariant
            from <= i <= to <= v.len(),
            s@ == lowered(v@.subrange(from as int, i as int)),
        decreases to - i,
    {
        s.push(to_lower(v[i]));
        assert(lowered(v@.subrange(from as int, i + 1)) == lowered(
            v@.subrange(from as int, i as int),
        ).push(lower(v@[i as int])));
        i += 1;
    }
    s
}

/// The string without its leading and trailing white space.
pub fn trimmed(s: &str) -> (r: String)
    ensures
        r@ == trim(s@),
{
    let v = to_chars(s);
    let a = scan(&v, 0, Class::Space);
    let b = scan_back(&v, a, v.len(), Class::Space);
    to_text(&v, a, b)
}

/// Whether two strings hold the same characters.
pub fn same(a: &str, b: &str) -> (r: bool)
    ensures
        r == (a@ == b@),
{
    let x = to_chars(a);
    let y = to_chars(b);
    if x.len() != y.len() {
        return false;
    }
    let mut i: usize = 0;
    while i < x.len()
        invariant
            i <= x.len(),
            x.len() == y.len(),
            x@ == a@,
            y@ == b@,
            forall|j: int| 0 <= j < i ==> x@[j] == y@[j],
        decreases x.len() - i,
    {
        if x[i] != y[i] {
            return false;
        }
        i += 1;
    }
    assert(x@ =~= y@);
    true
}

/// Appends the decimal digits of `n` to `out`.
pub fn push_decimal(out: &mut String, n: usize)
    ensures
        final(out)@ == old(out)@ + digits_of(n as nat),
    decreases n,
{
    if n >= 10 {
        push_decimal(out, n / 10);
    }
    let d: u8 = (n % 10) as u8;
    out.push((48 + d) as char);
}

} // verus!
