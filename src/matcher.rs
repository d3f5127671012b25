use vstd::prelude::*;

use crate::process::Process;
use crate::signal::ascii_upper;
use crate::text::{strip_comment, without_comment};

verus! {

#[verifier::external_type_specification]
#[verifier::external_body]
pub struct ExRegexSet(regex::RegexSet);

#[verifier::external_type_specification]
#[verifier::external_body]
pub struct ExRegexError(regex::Error);

/// The patterns that a compiled set holds, in the order they were given.
pub uninterp spec fn set_patterns(set: regex::RegexSet) -> Seq<Seq<char>>;

/// Whether a compiled set was built to ignore case.
pub uninterp spec fn set_ignores_case(set: regex::RegexSet) -> bool;

/// Whether a compiled set was built to ignore white space in its patterns.
pub uninterp spec fn set_ignores_whitespace(set: regex::RegexSet) -> bool;

/// Whether the pattern at position `i` of a compiled set, with every option the
/// set was built with, matches somewhere in `haystack`.
pub uninterp spec fn set_member_finds(set: regex::RegexSet, i: int, haystack: Seq<char>) -> bool;

/// Whether `patterns`, in order, compile into one set, ignoring case when
/// `ignore_case` holds.
pub uninterp spec fn set_builds(patterns: Seq<Seq<char>>, ignore_case: bool) -> bool;

/// Which field of a process the patterns are tested against.
#[derive(Debug, Clone, Copy, PartialEq, Eq, Structural)]
pub enum MatchMode {
    /// The base name of the executable.
    Basename,
    /// The whole command line.
    Commandline,
}

/// Why the patterns could not be compiled.
#[derive(Debug, PartialEq, Eq)]
pub enum PatternError {
    Invalid { message: String },
}

/// A character that stands for itself in a regular expression, whatever
/// options the expression was compiled with.
pub open spec fn is_plain_char(c: char) -> bool {
    ||| 'a' <= c <= 'z'
    ||| 'A' <= c <= 'Z'
    ||| '0' <= c <= '9'
    ||| c == '_'
    ||| c == '-'
    ||| c == '/'
    ||| c == ':'
    ||| c == ','
    ||| c == '='
    ||| c == '@'
    ||| c == '%'
    ||| c == '!'
    ||| c == ';'
    ||| c == '\''
    ||| c == '"'
    ||| c == '~'
    ||| c == '&'
}

/// A pattern made only of characters that stand for themselves; a space is
/// one of them unless the expression was compiled to ignore white space.
pub open spec fn is_plain_word(p: Seq<char>, ignores_whitespace: bool) -> bool {
    forall|i: int| 0 <= i < p.len() ==> is_plain_char(#[trigger] p[i]) || (p[i] == ' ' && !ignores_whitespace)
}

pub open spec fn is_ascii_text(t: Seq<char>) -> bool {
    forall|i: int| 0 <= i < t.len() ==> (#[trigger] t[i] as u32) < 128
}

pub open spec fn same_char(a: char, b: char, ignore_case: bool) -> bool {
    if ignore_case {
        ascii_upper(a) == ascii_upper(b)
    } else {
        a == b
    }
}

/// `word` stands in `text` at position `at`.
pub open spec fn occurs_at(text: Seq<char>, word: Seq<char>, at: int, ignore_case: bool) -> bool {
    &&& 0 <= at
    &&& at + word.len() <= text.len()
    &&& forall|j: int| 0 <= j < word.len() ==> same_char(#[trigger] text[at + j], word[j], ignore_case)
}

/// `word` stands somewhere in `text`.
pub open spec fn contains_word(text: Seq<char>, word: Seq<char>, ignore_case: bool) -> bool {
    exists|at: int| occurs_at(text, word, at, ignore_case)
}

/// Whether the pattern at position `i` of `set` matches somewhere in `text`.
/// A plain word on ASCII text matches exactly where the text holds it.
pub open spec fn member_finds(set: regex::RegexSet, i: int, text: Seq<char>) -> bool {
    if is_plain_word(set_patterns(set)[i], set_ignores_whitespace(set)) && is_ascii_text(text) {
        contains_word(text, set_patterns(set)[i], set_ignores_case(set))
    } else {
        set_member_finds(set, i, text)
    }
}

/// Whether any pattern of `set` matches somewhere in `text`.
pub open spec fn set_finds(set: regex::RegexSet, text: Seq<char>) -> bool {
    exists|i: int| 0 <= i < set_patterns(set).len() && #[trigger] member_finds(set, i, text)
}

/// The patterns that a list of input lines gives: each line without its
/// comment, empty results left out.
pub open spec fn patterns_of_lines(lines: Seq<Seq<char>>) -> Seq<Seq<char>> {
    lines.map_values(|l: Seq<char>| without_comment(l)).filter(|p: Seq<char>| p.len() > 0)
}

/// Relies on regex's `RegexSetBuilder`: compiles `patterns`, in order, into
/// one set that ignores case when `ignore_case` holds and, as the builder's
/// default is, does not ignore white space. Whether that succeeds
/// depends on the patterns and the option alone; with no patterns there is
/// nothing that can fail (`RegexSet::empty` unwraps that build).
#[verifier::external_body]
fn build_set(patterns: &Vec<String>, ignore_case: bool) -> (r: Result<regex::RegexSet, regex::Error>)
    ensures
        r is Ok <==> set_builds(patterns@.map_values(|p: String| p@), ignore_case),
        patterns@.len() == 0 ==> r is Ok,
        r matches Ok(set) ==> set_patterns(set) == patterns@.map_values(|p: String| p@)
            && set_ignores_case(set) == ignore_case && !set_ignores_whitespace(set),
{
    regex::RegexSetBuilder::new(patterns).case_insensitive(ignore_case).build()
}

/// Relies on regex's `RegexSet::is_match`: whether some pattern of the set
/// matches somewhere in `haystack`. A pattern made only of ASCII letters,
/// digits and the punctuation that `is_plain_char` lists, and of spaces when
/// the set does not ignore white space, is a literal under every other build
/// option but case folding, so on ASCII text it matches exactly where the
/// text holds it (ignoring ASCII case when the set ignores case).
#[verifier::external_body]
fn set_is_match(set: &regex::RegexSet, haystack: &str) -> (r: bool)
    ensures
        r == (exists|i: int|
            0 <= i < set_patterns(*set).len() && (if is_plain_word(#[trigger] set_patterns(*set)[i], set_ignores_whitespace(*set))
                && is_ascii_text(haystack@) {
                contains_word(haystack@, set_patterns(*set)[i], set_ignores_case(*set))
            } else {
                set_member_finds(*set, i, haystack@)
            })),
{
    set.is_match(haystack)
}

/// Relies on the `Display` impl of `regex::Error`: the error's description.
#[verifier::external_body]
fn error_message(e: &regex::Error) -> (r: String) {
    e.to_string()
}

/// Turns the lines of a pattern list into a compiled, case-insensitive set:
/// comments are removed, lines left empty are skipped, and each remaining
/// line is one regular expression. Loading succeeds exactly when those
/// patterns compile together, which they always do when none remains.
pub fn load_patterns(lines: &Vec<String>) -> (r: Result<regex::RegexSet, PatternError>)
    ensures
        r is Ok <==> set_builds(patterns_of_lines(lines@.map_values(|l: String| l@)), true),
        patterns_of_lines(lines@.map_values(|l: String| l@)).len() == 0 ==> r is Ok,
        r matches Ok(set) ==> set_patterns(set) == patterns_of_lines(lines@.map_values(|l: String| l@))
            && set_ignores_case(set) && !set_ignores_whitespace(set),
{
    let ghost views = lines@.map_values(|l: String| l@);
    let ghost cleaned = views.map_values(|l: Seq<char>| without_comment(l));
    let mut patterns: Vec<String> = Vec::new();
    let mut i: usize = 0;
    while i < lines.len()
        invariant
            i <= lines@.len(),
            views == lines@.map_values(|l: String| l@),
            cleaned == views.map_values(|l: Seq<char>| without_comment(l)),
            patterns@.map_values(|p: String| p@) == cleaned.take(i as int).filter(|p: Seq<char>| p.len() > 0),
        decreases lines.len() - i,
    {
        let pattern = strip_comment(lines[i].clone());
        proof {
            assert(cleaned.take(i + 1).drop_last() =~= cleaned.take(i as int));
            reveal(Seq::filter);
        }
        if !pattern.as_str().is_empty() {
            patterns.push(pattern);
            assert(patterns@.map_values(|p: String| p@) =~= cleaned.take(i + 1).filter(|p: Seq<char>| p.len() > 0));
        } else {
            assert(patterns@.map_values(|p: String| p@) =~= cleaned.take(i + 1).filter(|p: Seq<char>| p.len() > 0));
        }
        i = i + 1;
    }
    assert(cleaned.take(i as int) =~= cleaned);
    match build_set(&patterns, true) {
        Ok(set) => Ok(set),
        Err(e) => Err(PatternError::Invalid { message: error_message(&e) }),
    }
}

/// Tests processes against a compiled set of patterns.
#[derive(Debug)]
pub struct Matcher {
    regex_set: regex::RegexSet,
    mode: MatchMode,
}

/// The field of `process` that `mode` selects.
pub open spec fn target_of(process: &Process, mode: MatchMode) -> Seq<char> {
    match mode {
        MatchMode::Basename => process.spec_name(),
        MatchMode::Commandline => process.spec_commandline(),
    }
}

impl Matcher {
    pub closed spec fn set(&self) -> regex::RegexSet {
        self.regex_set
    }

    pub open spec fn patterns(&self) -> Seq<Seq<char>> {
        set_patterns(self.set())
    }

    pub open spec fn ignores_case(&self) -> bool {
        set_ignores_case(self.set())
    }

    pub open spec fn ignores_whitespace(&self) -> bool {
        set_ignores_whitespace(self.set())
    }

    pub closed spec fn mode(&self) -> MatchMode {
        self.mode
    }

    /// Whether `process` is selected: some pattern matches the field that
    /// the mode names.
    pub open spec fn selects(&self, process: &Process) -> bool {
        set_finds(self.set(), target_of(process, self.mode()))
    }

    pub fn new(regex_set: regex::RegexSet, mode: MatchMode) -> (r: Matcher)
        ensures
            r.set() == regex_set,
            r.mode() == mode,
    {
        Matcher { regex_set, mode }
    }

    /// Whether some pattern matches the process's base name or command line,
    /// as the mode says.
    pub fn is_match(&self, process: &Process) -> (r: bool)
        ensures
            r == self.selects(process),
    {
        let target = match self.mode {
            MatchMode::Basename => process.name(),
            MatchMode::Commandline => process.commandline(),
        };
        let r = set_is_match(&self.regex_set, target);
        proof {
            let set = self.regex_set;
            let text = target@;
            assert(text == target_of(process, self.mode));
            if r {
                assert(exists|i: int|
                    0 <= i < set_patterns(set).len() && (if is_plain_word(#[trigger] set_patterns(set)[i], set_ignores_whitespace(set))
                        && is_ascii_text(text) {
                        contains_word(text, set_patterns(set)[i], set_ignores_case(set))
                    } else {
                        set_member_finds(set, i, text)
                    }));
                let i = choose|i: int|
                    0 <= i < set_patterns(set).len() && (if is_plain_word(#[trigger] set_patterns(set)[i], set_ignores_whitespace(set))
                        && is_ascii_text(text) {
                        contains_word(text, set_patterns(set)[i], set_ignores_case(set))
                    } else {
                        set_member_finds(set, i, text)
                    });
                assert(member_finds(set, i, text));
            } else {
                assert forall|i: int| 0 <= i < set_patterns(set).len() implies !#[trigger] member_finds(
                    set,
                    i,
                    text,
                ) by {
                    assert(set_patterns(set)[i] == set_patterns(set)[i]);
                }
            }
        }
        r
    }
}

/// Whether a process is within the user scope: any owner when `owner` is
/// `None`, else that one.
pub open spec fn in_scope(process: &Process, owner: Option<u32>) -> bool {
    match owner {
        Some(u) => process.spec_user_id() == u,
        None => true,
    }
}

/// The processes, in discovery order, that are within the user scope and
/// that the matcher selects.
pub fn select_processes(candidates: Vec<Process>, owner: Option<u32>, matcher: &Matcher) -> (r: Vec<Process>)
    ensures
        r@ == candidates@.filter(|p: Process| in_scope(&p, owner) && matcher.selects(&p)),
{
    let ghost all = candidates@;
    let mut pending = candidates;
    // Popped into `rest`, the processes come out of it in discovery order.
    let mut rest: Vec<Process> = Vec::new();
    while pending.len() > 0
        invariant
            pending@.len() + rest@.len() == all.len(),
            forall|j: int| 0 <= j < pending@.len() ==> pending@[j] == all[j],
            forall|j: int| 0 <= j < rest@.len() ==> rest@[j] == all[all.len() - 1 - j],
        decreases pending.len(),
    {
        let process = pending.pop().unwrap();
        rest.push(process);
    }
    let mut r: Vec<Process> = Vec::new();
    let ghost mut i: int = 0;
    while rest.len() > 0
        invariant
            0 <= i && i + rest@.len() == all.len(),
            forall|j: int| 0 <= j < rest@.len() ==> rest@[j] == all[all.len() - 1 - j],
            r@ == all.take(i).filter(|p: Process| in_scope(&p, owner) && matcher.selects(&p)),
        decreases rest.len(),
    {
        let process = rest.pop().unwrap();
        proof {
            assert(process == all[i]);
            assert(all.take(i + 1).drop_last() =~= all.take(i));
            reveal(Seq::filter);
        }
        let keep = match owner {
            Some(u) => process.user_id() == u,
            None => true,
        } && matcher.is_match(&process);
        if keep {
            r.push(process);
        }
        assert(r@ =~= all.take(i + 1).filter(|p: Process| in_scope(&p, owner) && matcher.selects(&p)));
        proof {
            i = i + 1;
        }
    }
    assert(all.take(i) =~= all);
    r
}

/// Matching against an empty pattern set selects no process.
pub proof fn law_empty_set_selects_nothing(matcher: &Matcher, process: &Process)
    requires
        matcher.patterns().len() == 0,
    ensures
        !matcher.selects(process),
{
}

/// With patterns that are plain words and an ASCII target field, a process is
/// selected exactly when the field contains one of the patterns, ASCII case
/// ignored when the matcher ignores case.
pub proof fn law_plain_words_match_as_substrings(matcher: &Matcher, process: &Process)
    requires
        forall|i: int| 0 <= i < matcher.patterns().len() ==> is_plain_word(#[trigger] matcher.patterns()[i], matcher.ignores_whitespace()),
        is_ascii_text(target_of(process, matcher.mode())),
    ensures
        matcher.selects(process) <==> exists|i: int|
            0 <= i < matcher.patterns().len() && contains_word(
                target_of(process, matcher.mode()),
                #[trigger] matcher.patterns()[i],
                matcher.ignores_case(),
            ),
{
    let set = matcher.set();
    let text = target_of(process, matcher.mode());
    if matcher.selects(process) {
        let i = choose|i: int| 0 <= i < set_patterns(set).len() && #[trigger] member_finds(set, i, text);
        assert(is_plain_word(matcher.patterns()[i], matcher.ignores_whitespace()));
    }
    if exists|i: int|
        0 <= i < matcher.patterns().len() && contains_word(text, #[trigger] matcher.patterns()[i], matcher.ignores_case()) {
        let i = choose|i: int|
            0 <= i < matcher.patterns().len() && contains_word(text, #[trigger] matcher.patterns()[i], matcher.ignores_case());
        assert(is_plain_word(matcher.patterns()[i], matcher.ignores_whitespace()));
        assert(member_finds(set, i, text));
    }
}

} // verus!
