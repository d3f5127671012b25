use vstd::prelude::*;

use crate::text::{chars_of, decimal_i32, parse_i32, push_char};

verus! {

/// A signal that the operating system can deliver, as the platform's signal
/// catalog lists it: its number and its full name (`"SIGKILL"`).
#[derive(Debug, Clone, Copy, PartialEq, Eq)]
pub struct Signal {
    number: i32,
    name: &'static str,
}

/// The reason a text names no signal.
#[derive(Debug, Clone, Copy, PartialEq, Eq, Structural)]
pub enum ParseError {
    UnknownSignalName,
}

/// `c` in upper case when it is an ASCII lower-case letter.
pub open spec fn ascii_upper(c: char) -> char {
    if 'a' <= c <= 'z' {
        ((c as u32) - 32) as char
    } else {
        c
    }
}

pub open spec fn ascii_upper_seq(s: Seq<char>) -> Seq<char> {
    s.map_values(|c: char| ascii_upper(c))
}

/// `s` with every leading repetition of `"SIG"` removed.
pub open spec fn without_sig_prefix(s: Seq<char>) -> Seq<char>
    decreases s.len(),
{
    if s.len() >= 3 && s[0] == 'S' && s[1] == 'I' && s[2] == 'G' {
        without_sig_prefix(s.skip(3))
    } else {
        s
    }
}

/// The short name of a signal: its name without the `SIG` prefix, in upper case.
pub open spec fn basename_of(name: Seq<char>) -> Seq<char> {
    ascii_upper_seq(without_sig_prefix(name))
}

impl Signal {
    pub closed spec fn spec_number(self) -> i32 {
        self.number
    }

    pub closed spec fn spec_name(self) -> Seq<char> {
        self.name@
    }

    /// The signal's number.
    pub fn number(&self) -> (r: i32)
        ensures
            r == self.spec_number(),
    {
        self.number
    }

    /// The signal's full name, such as `"SIGTERM"`.
    pub fn name(&self) -> (r: String)
        ensures
            r@ == self.spec_name(),
    {
        self.name.to_owned()
    }

    /// The signal's short name, such as `"TERM"`.
    pub fn basename(&self) -> (r: String)
        ensures
            r@ == basename_of(self.spec_name()),
    {
        let chars = chars_of(self.name);
        let mut start: usize = 0;
        assert(chars@.skip(0) =~= chars@);
        while chars.len() - start >= 3 && chars[start] == 'S' && chars[start + 1] == 'I' && chars[start + 2] == 'G'
            invariant
                start <= chars@.len(),
                without_sig_prefix(chars@) == without_sig_prefix(chars@.skip(start as int)),
            decreases chars.len() - start,
        {
            assert(chars@.skip(start as int).skip(3) =~= chars@.skip(start + 3));
            start = start + 3;
        }
        let ghost rest = chars@.skip(start as int);
        let mut r = String::new();
        let mut i: usize = start;
        while i < chars.len()
            invariant
                start <= i <= chars@.len(),
                rest == chars@.skip(start as int),
                r@ == ascii_upper_seq(rest.take(i - start)),
            decreases chars.len() - i,
        {
            push_char(&mut r, to_ascii_upper(chars[i]));
            assert(rest.take(i + 1 - start) =~= rest.take(i - start).push(chars@[i as int]));
            assert(ascii_upper_seq(rest.take(i + 1 - start)) =~= ascii_upper_seq(rest.take(i - start)).push(
                ascii_upper(chars@[i as int]),
            ));
            i = i + 1;
        }
        assert(rest.take(i - start) =~= rest);
        r
    }
}

/// Whether `text` names `sig`: by its short name or its full name, either in
/// any ASCII case, or by its number.
pub open spec fn names_signal(sig: Signal, text: Seq<char>) -> bool {
    ||| basename_of(sig.spec_name()) == ascii_upper_seq(text)
    ||| sig.spec_name() == ascii_upper_seq(text)
    ||| decimal_i32(text) == Some(sig.spec_number())
}

/// Relies on nix's `Signal::iterator` and `Signal::as_str`: the signals that
/// this platform defines, in nix's order, each with its number and its name.
#[verifier::external_body]
fn platform_signals() -> (r: Vec<(i32, &'static str)>) {
    nix::sys::signal::Signal::iterator().map(|s| (s as i32, s.as_str())).collect()
}

impl Signal {
    /// Every signal that this platform supports.
    pub fn iterator() -> (r: Vec<Signal>) {
        let table = platform_signals();
        let mut r: Vec<Signal> = Vec::new();
        let mut i: usize = 0;
        while i < table.len()
            invariant
                i <= table@.len(),
                r@.len() == i,
                forall|j: int| 0 <= j < i ==> r@[j].spec_number() == table@[j].0 && r@[j].spec_name() == table@[j].1@,
            decreases table.len() - i,
        {
            let (number, name) = table[i];
            r.push(Signal { number, name });
            i = i + 1;
        }
        r
    }

    /// The signal of `catalog` with the given number, if it lists one.
    pub fn from_number_among(catalog: &Vec<Signal>, number: i32) -> (r: Option<Signal>)
        ensures
            match r {
                Some(s) => s.spec_number() == number && catalog@.contains(s),
                None => forall|i: int| 0 <= i < catalog@.len() ==> catalog@[i].spec_number() != number,
            },
    {
        let mut i: usize = 0;
        while i < catalog.len()
            invariant
                i <= catalog@.len(),
                forall|j: int| 0 <= j < i ==> catalog@[j].spec_number() != number,
            decreases catalog.len() - i,
        {
            if catalog[i].number == number {
                assert(catalog@[i as int] == catalog[i as int]);
                return Some(catalog[i]);
            }
            i = i + 1;
        }
        None
    }

    /// The supported signal with the given number, if there is one.
    pub fn from_number(number: i32) -> (r: Option<Signal>)
        ensures
            r matches Some(s) ==> s.spec_number() == number,
    {
        Signal::from_number_among(&Signal::iterator(), number)
    }

    /// The first signal of `catalog` that `text` names, by short name, full
    /// name (ASCII case ignored) or number.
    pub fn parse_among(catalog: &Vec<Signal>, text: &str) -> (r: Result<Signal, ParseError>)
        ensures
            match r {
                Ok(s) => exists|i: int|
                    0 <= i < catalog@.len() && catalog@[i] == s && names_signal(s, text@) && forall|j: int|
                        0 <= j < i ==> !names_signal(#[trigger] catalog@[j], text@),
                Err(e) => e == ParseError::UnknownSignalName && forall|i: int|
                    0 <= i < catalog@.len() ==> !names_signal(#[trigger] catalog@[i], text@),
            },
    {
        let chars = chars_of(text);
        let upper = upper_string(&chars);
        let number = parse_i32(&chars);
        let mut i: usize = 0;
        while i < catalog.len()
            invariant
                i <= catalog@.len(),
                chars@ == text@,
                upper@ == ascii_upper_seq(text@),
                number == decimal_i32(text@),
                forall|j: int| 0 <= j < i ==> !names_signal(#[trigger] catalog@[j], text@),
            decreases catalog.len() - i,
        {
            let signal = catalog[i];
            let by_number = match number {
                Some(n) => signal.number == n,
                None => false,
            };
            if signal.basename() == upper || signal.name() == upper || by_number {
                assert(catalog@[i as int] == signal);
                return Ok(signal);
            }
            i = i + 1;
        }
        Err(ParseError::UnknownSignalName)
    }
}

impl std::str::FromStr for Signal {
    type Err = ParseError;

    fn from_str(text: &str) -> Result<Signal, ParseError> {
        Signal::parse_among(&Signal::iterator(), text)
    }
}

/// `chars` in ASCII upper case, as a string.
fn upper_string(chars: &Vec<char>) -> (r: String)
    ensures
        r@ == ascii_upper_seq(chars@),
{
    let mut r = String::new();
    let mut i: usize = 0;
    while i < chars.len()
        invariant
            i <= chars@.len(),
            r@ == ascii_upper_seq(chars@.take(i as int)),
        decreases chars.len() - i,
    {
        push_char(&mut r, to_ascii_upper(chars[i]));
        assert(ascii_upper_seq(chars@.take(i + 1)) =~= ascii_upper_seq(chars@.take(i as int)).push(
            ascii_upper(chars@[i as int]),
        ));
        i = i + 1;
    }
    assert(chars@.take(i as int) =~= chars@);
    r
}

fn to_ascii_upper(c: char) -> (r: char)
    ensures
        r == ascii_upper(c),
{
    if 'a' <= c && c <= 'z' {
        ((c as u32 - 32) as u8) as char
    } else {
        c
    }
}

} // verus!
