use vstd::prelude::*;

verus! {

/// The characters that carry the Unicode `White_Space` property, which is what
/// `char::is_whitespace` and the `trim` family of `str` go by.
pub open spec fn is_white_space(c: char) -> bool {
    ||| '\u{9}' <= c <= '\u{d}'
    ||| c == ' '
    ||| c == '\u{85}'
    ||| c == '\u{a0}'
    ||| c == '\u{1680}'
    ||| '\u{2000}' <= c <= '\u{200a}'
    ||| c == '\u{2028}'
    ||| c == '\u{2029}'
    ||| c == '\u{202f}'
    ||| c == '\u{205f}'
    ||| c == '\u{3000}'
}

/// `s` without its trailing white space.
pub open spec fn trim_end(s: Seq<char>) -> Seq<char>
    decreases s.len(),
{
    if s.len() > 0 && is_white_space(s.last()) {
        trim_end(s.drop_last())
    } else {
        s
    }
}

/// `s` without its leading white space.
pub open spec fn trim_start(s: Seq<char>) -> Seq<char>
    decreases s.len(),
{
    if s.len() > 0 && is_white_space(s[0]) {
        trim_start(s.drop_first())
    } else {
        s
    }
}

/// `s` without leading and trailing white space.
pub open spec fn trim(s: Seq<char>) -> Seq<char> {
    trim_end(trim_start(s))
}

/// A NUL separator shown as a space.
pub open spec fn nul_as_space(c: char) -> char {
    if c == '\0' {
        ' '
    } else {
        c
    }
}

/// The command line as shown to a user: the raw argument vector, whose
/// elements are separated (and usually ended) by NUL, with every NUL turned
/// into a space and trailing white space removed.
pub open spec fn cmdline_text(raw: Seq<char>) -> Seq<char> {
    trim_end(raw.map_values(|c: char| nul_as_space(c)))
}

/// Index of the first occurrence of `c` in `s`, if there is one.
pub open spec fn first_index_of(s: Seq<char>, c: char) -> Option<int> {
    if exists|i: int| 0 <= i < s.len() && s[i] == c {
        Some(choose|i: int| 0 <= i < s.len() && s[i] == c && forall|j: int| 0 <= j < i ==> s[j] != c)
    } else {
        None
    }
}

/// A pattern line with its comment removed: everything from the first `#` on
/// is dropped and the rest is trimmed. A line without `#` is kept as it is.
pub open spec fn without_comment(line: Seq<char>) -> Seq<char> {
    match first_index_of(line, '#') {
        Some(i) => trim(line.take(i)),
        None => line,
    }
}

/// Value of a run of decimal digits.
pub open spec fn digits_value(s: Seq<char>) -> int
    decreases s.len(),
{
    if s.len() == 0 {
        0
    } else {
        digits_value(s.drop_last()) * 10 + (s.last() as u32 - '0' as u32)
    }
}

pub open spec fn is_digit(c: char) -> bool {
    '0' <= c <= '9'
}

pub open spec fn all_digits(s: Seq<char>) -> bool {
    forall|i: int| 0 <= i < s.len() ==> is_digit(s[i])
}

/// Length of the sign in front of a decimal number: one for `-` or `+`.
pub open spec fn sign_len(text: Seq<char>) -> int {
    if text.len() > 0 && (text[0] == '-' || text[0] == '+') {
        1
    } else {
        0
    }
}

/// What `text` reads as a decimal `i32`: an optional sign followed by one or
/// more digits, whose value fits.
pub open spec fn decimal_i32(text: Seq<char>) -> Option<i32> {
    let digits = text.skip(sign_len(text));
    let value = if text.len() > 0 && text[0] == '-' {
        -digits_value(digits)
    } else {
        digits_value(digits)
    };
    if digits.len() > 0 && all_digits(digits) && i32::MIN <= value <= i32::MAX {
        Some(value as i32)
    } else {
        None
    }
}

/// The character of a decimal digit.
pub open spec fn digit_char(d: int) -> char {
    ((d + 48) as u8) as char
}

/// The decimal digits of `n`, without leading zeros.
pub open spec fn natural_text(n: nat) -> Seq<char>
    decreases n,
{
    if n < 10 {
        seq![digit_char(n as int)]
    } else {
        natural_text(n / 10).push(digit_char((n % 10) as int))
    }
}

/// `n` in decimal, with a minus sign when it is negative.
pub open spec fn integer_text(n: int) -> Seq<char> {
    if n < 0 {
        seq!['-'] + natural_text((-n) as nat)
    } else {
        natural_text(n as nat)
    }
}

pub fn is_white_space_char(c: char) -> (r: bool)
    ensures
        r == is_white_space(c),
{
    ('\u{9}' <= c && c <= '\u{d}') || c == ' ' || c == '\u{85}' || c == '\u{a0}' || c == '\u{1680}'
        || ('\u{2000}' <= c && c <= '\u{200a}') || c == '\u{2028}' || c == '\u{2029}' || c
        == '\u{202f}' || c == '\u{205f}' || c == '\u{3000}'
}

/// Relies on `String::push`: appends one character.
#[verifier::external_body]
pub(crate) fn push_char(s: &mut String, c: char)
    ensures
        final(s)@ == old(s)@.push(c),
{
    s.push(c);
}

/// The characters of `s`, one element each.
pub(crate) fn chars_of(s: &str) -> (r: Vec<char>)
    ensures
        r@ == s@,
{
    let mut r: Vec<char> = Vec::new();
    for c in it: s.chars()
        invariant
            it.seq() == s@,
            r@ == s@.take(it.index() as int),
    {
        r.push(c);
        assert(s@.take(it.index() + 1) =~= s@.take(it.index() as int).push(c));
    }
    assert(s@.take(s@.len() as int) =~= s@);
    r
}

/// The characters `v[from..to]` as a string.
pub(crate) fn string_of(v: &Vec<char>, from: usize, to: usize) -> (r: String)
    requires
        from <= to <= v@.len(),
    ensures
        r@ == v@.subrange(from as int, to as int),
{
    let mut r = String::new();
    let mut i: usize = from;
    while i < to
        invariant
            from <= i <= to <= v@.len(),
            r@ == v@.subrange(from as int, i as int),
        decreases to - i,
    {
        push_char(&mut r, v[i]);
        assert(v@.subrange(from as int, i + 1) =~= v@.subrange(from as int, i as int).push(v@[i as int]));
        i = i + 1;
    }
    r
}

/// Bounds `(a, b)` such that `v[a..b]` is `v[0..k]` trimmed.
fn trimmed_bounds(v: &Vec<char>, k: usize) -> (r: (usize, usize))
    requires
        k <= v@.len(),
    ensures
        r.0 <= r.1 <= k,
        v@.subrange(r.0 as int, r.1 as int) == trim(v@.take(k as int)),
{
    let ghost t = v@.take(k as int);
    assert(t.skip(0) =~= t);
    let mut a: usize = 0;
    while a < k && is_white_space_char(v[a])
        invariant
            a <= k <= v@.len(),
            t == v@.take(k as int),
            trim_start(t) == trim_start(t.skip(a as int)),
        decreases k - a,
    {
        assert(t.skip(a as int).drop_first() =~= t.skip(a + 1));
        a = a + 1;
    }
    assert(trim_start(t) == t.skip(a as int)) by {
        if a == k {
            assert(t.skip(a as int).len() == 0);
        }
    }
    assert(t.skip(a as int) =~= v@.subrange(a as int, k as int));
    let mut b: usize = k;
    while b > a && is_white_space_char(v[b - 1])
        invariant
            a <= b <= k <= v@.len(),
            trim(t) == trim_end(v@.subrange(a as int, b as int)),
        decreases b - a,
    {
        assert(v@.subrange(a as int, b as int).drop_last() =~= v@.subrange(a as int, b - 1));
        b = b - 1;
    }
    (a, b)
}

/// Position of the first `c` in `v`, if any.
fn position_of(v: &Vec<char>, c: char) -> (r: Option<usize>)
    ensures
        match r {
            Some(i) => i < v@.len() && first_index_of(v@, c) == Some(i as int),
            None => first_index_of(v@, c) is None,
        },
{
    let mut i: usize = 0;
    while i < v.len()
        invariant
            i <= v@.len(),
            forall|j: int| 0 <= j < i ==> v@[j] != c,
        decreases v.len() - i,
    {
        if v[i] == c {
            let ghost w = choose|w: int| 0 <= w < v@.len() && v@[w] == c && forall|j: int| 0 <= j < w ==> v@[j] != c;
            assert(v@[i as int] == c);
            assert(w == i) by {
                if w > i {
                    assert(v@[i as int] != c);
                }
            }
            return Some(i);
        }
        i = i + 1;
    }
    None
}

/// Removes a trailing `#` comment from a pattern line. When the line holds a
/// `#`, what comes before the first one is returned without surrounding white
/// space; otherwise the line is returned unchanged.
pub fn strip_comment(line: String) -> (r: String)
    ensures
        r@ == without_comment(line@),
{
    let chars = chars_of(line.as_str());
    match position_of(&chars, '#') {
        Some(index) => {
            let (a, b) = trimmed_bounds(&chars, index);
            string_of(&chars, a, b)
        },
        None => line,
    }
}

/// Turns the raw contents of a process's argument vector into one line: each
/// NUL becomes a space and trailing white space is removed.
pub fn parse_cmdline(cmdline: &str) -> (r: String)
    ensures
        r@ == cmdline_text(cmdline@),
{
    let chars = chars_of(cmdline);
    let ghost shown = cmdline@.map_values(|c: char| nul_as_space(c));
    // How many characters remain once the trailing white space is gone.
    let mut end: usize = chars.len();
    assert(shown.take(end as int) =~= shown);
    while end > 0 && is_white_space_char(nul_as_space_char(chars[end - 1]))
        invariant
            end <= chars@.len(),
            chars@ == cmdline@,
            shown == cmdline@.map_values(|c: char| nul_as_space(c)),
            cmdline_text(cmdline@) == trim_end(shown.take(end as int)),
        decreases end,
    {
        assert(shown.take(end as int).drop_last() =~= shown.take(end - 1));
        end = end - 1;
    }
    let mut r = String::new();
    let mut i: usize = 0;
    while i < end
        invariant
            i <= end <= chars@.len(),
            chars@ == cmdline@,
            shown == cmdline@.map_values(|c: char| nul_as_space(c)),
            r@ == shown.take(i as int),
        decreases end - i,
    {
        push_char(&mut r, nul_as_space_char(chars[i]));
        assert(shown.take(i + 1) =~= shown.take(i as int).push(shown[i as int]));
        i = i + 1;
    }
    r
}

fn nul_as_space_char(c: char) -> (r: char)
    ensures
        r == nul_as_space(c),
{
    if c == '\0' {
        ' '
    } else {
        c
    }
}

proof fn lemma_trim_end_prefix(s: Seq<char>)
    ensures
        trim_end(s).len() <= s.len(),
        trim_end(s) == s.take(trim_end(s).len() as int),
        trim_end(s).len() == 0 || !is_white_space(trim_end(s).last()),
    decreases s.len(),
{
    if s.len() > 0 && is_white_space(s.last()) {
        lemma_trim_end_prefix(s.drop_last());
        assert(s.drop_last().take(trim_end(s).len() as int) =~= s.take(trim_end(s).len() as int));
    } else {
        assert(s.take(s.len() as int) =~= s);
    }
}

/// Showing a command line is idempotent: a line that is already shown as
/// text holds no NUL and no trailing white space, so showing it again leaves
/// it unchanged.
pub proof fn law_cmdline_text_idempotent(raw: Seq<char>)
    ensures
        cmdline_text(cmdline_text(raw)) == cmdline_text(raw),
{
    let shown = raw.map_values(|c: char| nul_as_space(c));
    let t = cmdline_text(raw);
    lemma_trim_end_prefix(shown);
    assert forall|i: int| 0 <= i < t.len() implies t[i] != '\0' by {
        assert(t[i] == shown.take(t.len() as int)[i]);
    }
    assert(t.map_values(|c: char| nul_as_space(c)) =~= t);
    if t.len() > 0 {
        assert(!is_white_space(t.last()));
    }
}

proof fn lemma_digits_value_grows(s: Seq<char>, k: int)
    requires
        all_digits(s),
        0 <= k <= s.len(),
    ensures
        0 <= digits_value(s.take(k)) <= digits_value(s),
    decreases s.len(),
{
    if s.len() > 0 {
        if k == s.len() {
            assert(s.take(k) =~= s);
            lemma_digits_value_grows(s.drop_last(), k - 1);
            assert(s.drop_last().take(k - 1) =~= s.drop_last());
        } else {
            lemma_digits_value_grows(s.drop_last(), k);
            assert(s.drop_last().take(k) =~= s.take(k));
            lemma_digits_value_grows(s.drop_last(), s.len() - 1);
            assert(s.drop_last().take(s.len() - 1) =~= s.drop_last());
        }
    }
}

/// Reads `chars` as a decimal `i32`, as `str::parse` does.
pub(crate) fn parse_i32(chars: &Vec<char>) -> (r: Option<i32>)
    ensures
        r == decimal_i32(chars@),
{
    let n = chars.len();
    let negative = n > 0 && chars[0] == '-';
    let start: usize = if n > 0 && (chars[0] == '-' || chars[0] == '+') {
        1
    } else {
        0
    };
    let ghost digits = chars@.skip(start as int);
    assert(start == sign_len(chars@));
    if start == n {
        return None;
    }
    assert(digits.take(0) =~= Seq::<char>::empty());
    let mut value: i64 = 0;
    let mut i: usize = start;
    while i < n
        invariant
            start <= i <= n == chars@.len(),
            start == sign_len(chars@),
            negative == (n > 0 && chars@[0] == '-'),
            digits == chars@.skip(start as int),
            all_digits(digits.take(i - start)),
            value == digits_value(digits.take(i - start)),
            0 <= value <= 2147483648,
        decreases n - i,
    {
        let c = chars[i];
        if !('0' <= c && c <= '9') {
            assert(digits[i - start] == c);
            assert(!all_digits(digits));
            assert(decimal_i32(chars@) is None);
            return None;
        }
        let ghost before = digits.take(i - start);
        assert(digits.take(i + 1 - start).drop_last() =~= before);
        let next = value * 10 + (c as u32 - '0' as u32) as i64;
        if next > 2147483648 {
            proof {
                assert(digits.take(i + 1 - start).last() == c);
                assert(digits_value(digits.take(i + 1 - start)) == next);
                if all_digits(digits) {
                    lemma_digits_value_grows(digits, i + 1 - start);
                }
            }
            return None;
        }
        value = next;
        i = i + 1;
        assert(all_digits(digits.take(i - start))) by {
            assert forall|j: int| 0 <= j < i - start implies is_digit(#[trigger] digits.take(i - start)[j]) by {
                if j < i - 1 - start {
                    assert(digits.take(i - start)[j] == before[j]);
                }
            }
        }
    }
    assert(digits.take(n - start) =~= digits);
    if negative {
        Some((-value) as i32)
    } else if value <= 2147483647 {
        Some(value as i32)
    } else {
        None
    }
}

fn push_natural(out: &mut String, n: u64)
    ensures
        final(out)@ == old(out)@ + natural_text(n as nat),
    decreases n,
{
    if n >= 10 {
        push_natural(out, n / 10);
    }
    push_char(out, ((n % 10) as u8 + 48) as char);
}

/// Appends `n` in decimal.
pub(crate) fn push_integer(out: &mut String, n: i64)
    ensures
        final(out)@ == old(out)@ + integer_text(n as int),
{
    if n < 0 {
        push_char(out, '-');
        let magnitude: u64 = if n == i64::MIN {
            9223372036854775808
        } else {
            (-n) as u64
        };
        push_natural(out, magnitude);
    } else {
        push_natural(out, n as u64);
    }
}

} // verus!
