//! Compiling patterns and running them.
//!
//! The engine is `regress`, an ECMAScript backtracking engine. Patterns are
//! checked for early errors by `oxc_regular_expression` before they get here.

use oxc_allocator::Allocator;
use oxc_regular_expression::{LiteralParser, Options};
use regress::Regex;
use vstd::prelude::*;

use crate::regexp::flags::{lemma_full_unicode, valid_flags_text, RegExpFlags};
use crate::utf16::{
    char_values, check_no_pair, check_well_formed, encode, has_no_pair, is_inside_pair,
    is_well_formed, lemma_char_range, lemma_splits_pair, lemma_values_widen, lemma_well_formed,
    splits_pair, unit_values,
};

verus! {

/// `regress::Regex`, a compiled pattern.
#[verifier::external_type_specification]
#[verifier::external_body]
pub struct ExRegex(Regex);

/// One match, in positions that count code units.
#[derive(Debug)]
pub struct MatchRecord {
    pub start: usize,
    pub end: usize,
    /// The range of each capture group, or `None` for a group that did not take part.
    pub captures: Vec<Option<(usize, usize)>>,
    /// The named groups and their ranges, each name once.
    pub named_groups: Vec<(String, Option<(usize, usize)>)>,
}

/// What a [`MatchRecord`] says.
#[verifier::ext_equal]
pub struct MatchModel {
    pub start: usize,
    pub end: usize,
    pub captures: Seq<Option<(usize, usize)>>,
    pub named_groups: Seq<(Seq<char>, Option<(usize, usize)>)>,
}

impl View for MatchRecord {
    type V = MatchModel;

    open spec fn view(&self) -> MatchModel {
        MatchModel {
            start: self.start,
            end: self.end,
            captures: self.captures@,
            named_groups: self.named_groups@.map_values(
                |g: (String, Option<(usize, usize)>)| (g.0@, g.1),
            ),
        }
    }
}

/// The most capture groups that a pattern can have.
pub const MAX_CAPTURE_GROUPS: usize = 65535;

/// Whether a capture lies within a haystack of `length` code units.
pub open spec fn capture_in_range(capture: Option<(usize, usize)>, length: nat) -> bool {
    capture matches Some(range) ==> range.0 <= range.1 <= length
}

/// Whether a match is one of a haystack of `length` code units.
pub open spec fn match_in_range(m: MatchModel, length: nat) -> bool {
    &&& m.start <= m.end <= length
    &&& m.captures.len() <= MAX_CAPTURE_GROUPS
    &&& forall|i: int|
        0 <= i < m.captures.len() ==> capture_in_range(#[trigger] m.captures[i], length)
    &&& forall|i: int|
        0 <= i < m.named_groups.len() ==> capture_in_range(
            (#[trigger] m.named_groups[i]).1,
            length,
        )
    &&& forall|i: int, j: int|
        0 <= i < j < m.named_groups.len() ==> (#[trigger] m.named_groups[i]).0 != (
        #[trigger] m.named_groups[j]).0
}

/// What is matched by `Option<MatchRecord>`.
pub open spec fn match_view(m: Option<MatchRecord>) -> Option<MatchModel> {
    match m {
        Some(m) => Some(m@),
        None => None,
    }
}

/// A compiled pattern, or the message that says why there is none.
pub open spec fn regex_view(r: Result<Regex, String>) -> Result<Regex, Seq<char>> {
    match r {
        Ok(regex) => Ok(regex),
        Err(message) => Err(message@),
    }
}

/// A compiled pattern together with what it was compiled from.
#[derive(Debug)]
pub struct Matcher {
    regex: Regex,
    pattern: Vec<u32>,
    flags: String,
}

impl Matcher {
    #[verifier::type_invariant]
    spec fn is_compiled(self) -> bool {
        &&& regress_compile(self.pattern@, self.flags@) == Ok::<Regex, Seq<char>>(self.regex)
        &&& are_code_points(self.pattern@)
    }

    /// The compiled pattern.
    pub closed spec fn regex(self) -> Regex {
        self.regex
    }

    /// The code points of the pattern.
    pub closed spec fn pattern(self) -> Seq<u32> {
        self.pattern@
    }

    /// The flags that the pattern was compiled with.
    pub closed spec fn flags(self) -> Seq<char> {
        self.flags@
    }
}

/// Whether `r` is the result of compiling `pattern` with `flags`.
pub open spec fn is_compilation(
    r: Result<Matcher, String>,
    pattern: Seq<u32>,
    flags: Seq<char>,
) -> bool {
    match r {
        Ok(matcher) => {
            &&& regress_compile(pattern, flags) == Ok::<Regex, Seq<char>>(matcher.regex())
            &&& matcher.pattern() == pattern
            &&& matcher.flags() == flags
        },
        Err(message) => regress_compile(pattern, flags) == Err::<Regex, Seq<char>>(message@),
    }
}

/// What `Regex::from_unicode` makes of a pattern and its flags.
pub uninterp spec fn regress_compile(pattern: Seq<u32>, flags: Seq<char>) -> Result<
    Regex,
    Seq<char>,
>;

/// What `Regex::from_unicode` makes of a pattern and its flags with the
/// optimizer switched off.
pub uninterp spec fn regress_compile_unoptimized(pattern: Seq<u32>, flags: Seq<char>) -> Result<
    Regex,
    Seq<char>,
>;

/// What `Regex::find_from_utf16` finds first at or after `start`.
pub uninterp spec fn regress_find_utf16(regex: Regex, text: Seq<u16>, start: usize) -> Option<
    MatchModel,
>;

/// What `Regex::find_from_ucs2` finds first at or after `start`.
pub uninterp spec fn regress_find_ucs2(regex: Regex, text: Seq<u16>, start: usize) -> Option<
    MatchModel,
>;

/// What `LiteralParser::parse` says of a pattern and its flags: nothing, or
/// the message of an early error.
pub uninterp spec fn literal_early_error(pattern: Seq<char>, flags: Option<Seq<char>>) -> Option<
    Seq<char>,
>;

/// Whether a backslash is followed by a digit other than 0 or by `k`. A pattern
/// without this has no backreferences.
pub open spec fn may_backreference(pattern: Seq<u32>) -> bool {
    exists|i: int|
        #![trigger pattern[i]]
        0 <= i && i + 1 < pattern.len() && pattern[i] == 0x5C && (0x31 <= pattern[i + 1] <= 0x39
            || pattern[i + 1] == 0x6B)
}

/// Whether `regex` is the result of compiling a pattern without backreferences.
pub open spec fn has_no_backreference(regex: Regex) -> bool {
    exists|pattern: Seq<u32>, flags: Seq<char>|
        #[trigger] regress_compile(pattern, flags) == Ok::<Regex, Seq<char>>(regex)
            && !may_backreference(pattern)
}

/// Whether `regex` was compiled with the optimizer switched off.
pub open spec fn is_unoptimized(regex: Regex) -> bool {
    exists|pattern: Seq<u32>, flags: Seq<char>|
        #[trigger] regress_compile_unoptimized(pattern, flags) == Ok::<Regex, Seq<char>>(regex)
}

/// Whether every number is a code point.
pub open spec fn are_code_points(values: Seq<u32>) -> bool {
    forall|i: int| 0 <= i < values.len() ==> #[trigger] values[i] <= 0x10FFFF
}

/// `Regex::from_unicode` compiles a pattern. The text of the error is kept.
#[verifier::external_body]
fn from_unicode(pattern: &[u32], flags: &str) -> (r: Result<Regex, String>)
    requires
        are_code_points(pattern@),
    ensures
        regex_view(r) == regress_compile(pattern@, flags@),
{
    Regex::from_unicode(pattern.iter().copied(), flags).map_err(|e| e.text)
}

/// `Regex::from_unicode` compiles a pattern with the flag `no_opt`, which
/// switches the optimizer off. Only parsing can fail, and the optimizer has no
/// part in that.
#[verifier::external_body]
fn from_unicode_unoptimized(pattern: &[u32], flags: &str) -> (r: Result<Regex, String>)
    requires
        are_code_points(pattern@),
    ensures
        regex_view(r) == regress_compile_unoptimized(pattern@, flags@),
        r is Ok <==> regress_compile(pattern@, flags@) is Ok,
{
    let mut flags = regress::Flags::from(flags);
    flags.no_opt = true;
    Regex::from_unicode(pattern.iter().copied(), flags).map_err(|e| e.text)
}

/// `Regex::find_from_utf16` searches for the first match at or after `start`,
/// reading surrogate pairs as one character.
///
/// The optimizer turns the repetition of a single character into a loop that
/// gives the characters back one code point at a time and does not stop at its
/// beginning if that splits a pair. A search can get inside of a pair only by
/// starting there, or by a backreference over an unpaired surrogate: there the
/// pattern must have been compiled without the optimizer.
#[verifier::external_body]
fn find_from_utf16(regex: &Regex, text: &[u16], start: usize) -> (r: Option<MatchRecord>)
    requires
        start <= text@.len(),
        is_unoptimized(*regex) || has_no_pair(text@) || (!splits_pair(text@, start as int) && (
        is_well_formed(text@) || has_no_backreference(*regex))),
    ensures
        match_view(r) == regress_find_utf16(*regex, text@, start),
        r matches Some(m) ==> start <= m.start && match_in_range(m@, text@.len()),
{
    regex.find_from_utf16(text, start).next().map(
        |m| MatchRecord {
            start: m.start(),
            end: m.end(),
            captures: m.captures.iter().map(|c| c.clone().map(|r| (r.start, r.end))).collect(),
            named_groups: m.named_groups().map(
                |(name, c)| (name.to_string(), c.map(|r| (r.start, r.end))),
            ).collect(),
        },
    )
}

/// `Regex::find_from_ucs2` searches for the first match at or after `start`,
/// reading every code unit as one character.
#[verifier::external_body]
fn find_from_ucs2(regex: &Regex, text: &[u16], start: usize) -> (r: Option<MatchRecord>)
    requires
        start <= text@.len(),
    ensures
        match_view(r) == regress_find_ucs2(*regex, text@, start),
        r matches Some(m) ==> start <= m.start && match_in_range(m@, text@.len()),
{
    regex.find_from_ucs2(text, start).next().map(
        |m| MatchRecord {
            start: m.start(),
            end: m.end(),
            captures: m.captures.iter().map(|c| c.clone().map(|r| (r.start, r.end))).collect(),
            named_groups: m.named_groups().map(
                |(name, c)| (name.to_string(), c.map(|r| (r.start, r.end))),
            ).collect(),
        },
    )
}

/// The message of an early error.
pub open spec fn message_view(r: Option<String>) -> Option<Seq<char>> {
    match r {
        Some(message) => Some(message@),
        None => None,
    }
}

/// The text of optional flags.
pub open spec fn flags_view(flags: Option<&str>) -> Option<Seq<char>> {
    match flags {
        Some(text) => Some(text@),
        None => None,
    }
}

/// The most code units that a pattern or its flags may have: the parser counts
/// bytes in 32 bits, and a code unit takes at most three.
pub const MAX_PATTERN_LENGTH: usize = 0x5555_5550;

/// Whether `early_error` is what a pattern gives with every text of valid flags
/// that agrees with the valid flags `text` on `u` and `v`.
pub open spec fn depends_on_mode(
    pattern: Seq<char>,
    text: Seq<char>,
    early_error: Option<Seq<char>>,
) -> bool {
    valid_flags_text(text) ==> forall|other: Seq<char>|
        valid_flags_text(other) && other.contains('u') == text.contains('u') && other.contains('v')
            == text.contains('v') ==> #[trigger] literal_early_error(pattern, Some(other))
            == early_error
}

/// `LiteralParser::parse` reads the flags and then the pattern of a regular
/// expression literal and reports the first early error. Flags that are not
/// flag letters, that repeat, or that combine `u` and `v` are such errors. Of
/// other flags only the presence of `u` and of `v` matters to the pattern.
#[verifier::external_body]
pub(crate) fn parse_literal(pattern: &str, flags: Option<&str>) -> (r: Option<String>)
    requires
        encode(pattern@).len() <= MAX_PATTERN_LENGTH,
        flags matches Some(text) ==> encode(text@).len() <= MAX_PATTERN_LENGTH,
    ensures
        message_view(r) == literal_early_error(pattern@, flags_view(flags)),
        r is None ==> (flags matches Some(text) ==> valid_flags_text(text@)),
        flags matches Some(text) ==> depends_on_mode(pattern@, text@, message_view(r)),
{
    let allocator = Allocator::new();
    let parser = LiteralParser::new(&allocator, pattern, flags, Options::default());
    parser.parse().err().map(|e| e.message.to_string())
}

/// The code points that a pattern is compiled from: its characters in Unicode
/// mode, else its code units.
pub open spec fn pattern_code_points(pattern: Seq<char>, flags: RegExpFlags) -> Seq<u32> {
    if flags.spec_full_unicode() {
        char_values(pattern)
    } else {
        unit_values(encode(pattern))
    }
}

/// A pattern is compiled from code points.
pub proof fn lemma_pattern_code_points(pattern: Seq<char>, flags: RegExpFlags)
    ensures
        are_code_points(pattern_code_points(pattern, flags)),
{
    assert forall|i: int| 0 <= i < pattern.len() implies #[trigger] char_values(pattern)[i]
        <= 0x10FFFF by {
        lemma_char_range(pattern[i]);
    }
}

/// Whether a pattern may have backreferences.
pub fn check_may_backreference(pattern: &[u32]) -> (r: bool)
    ensures
        r == may_backreference(pattern@),
{
    if pattern.len() == 0 {
        return false;
    }
    let mut i: usize = 0;
    while i < pattern.len() - 1
        invariant
            i < pattern@.len(),
            forall|j: int|
                #![trigger pattern@[j]]
                0 <= j < i && j + 1 < pattern@.len() && pattern@[j] == 0x5C ==> !(0x31
                    <= pattern@[j + 1] <= 0x39 || pattern@[j + 1] == 0x6B),
        decreases pattern@.len() - i,
    {
        let next: u32 = pattern[i + 1];
        if pattern[i] == 0x5C && (0x31 <= next && next <= 0x39 || next == 0x6B) {
            return true;
        }
        i = i + 1;
    }
    false
}

/// Whether a search from `start` in Unicode mode never gets inside of a
/// surrogate pair: there is none; or the search begins outside of pairs and, if
/// the pattern has backreferences, no surrogate is unpaired.
pub open spec fn pairs_stay_whole(pattern: Seq<u32>, text: Seq<u16>, start: usize) -> bool {
    has_no_pair(text) || (!splits_pair(text, start as int) && (is_well_formed(text)
        || !may_backreference(pattern)))
}

impl Matcher {
    /// The pattern compiled without the optimizer.
    pub open spec fn unoptimized_regex(self) -> Regex {
        regress_compile_unoptimized(self.pattern(), self.flags())->Ok_0
    }

    /// What is found in a haystack at or after `start`. In Unicode mode
    /// surrogate pairs are read as one character, else every code unit is one.
    /// A search that can get inside of a pair does without the optimizer.
    pub open spec fn spec_find(
        self,
        text: Seq<u16>,
        start: usize,
        full_unicode: bool,
    ) -> Option<MatchModel> {
        if !full_unicode {
            regress_find_ucs2(self.regex(), text, start)
        } else if pairs_stay_whole(self.pattern(), text, start) {
            regress_find_utf16(self.regex(), text, start)
        } else {
            regress_find_utf16(self.unoptimized_regex(), text, start)
        }
    }

    /// Compiles the code points of a pattern.
    pub fn compile(pattern: Vec<u32>, flags: String) -> (r: Result<Matcher, String>)
        requires
            are_code_points(pattern@),
        ensures
            is_compilation(r, pattern@, flags@),
    {
        match from_unicode(pattern.as_slice(), flags.as_str()) {
            Ok(regex) => Ok(Matcher { regex, pattern, flags }),
            Err(message) => Err(message),
        }
    }

    /// Finds the first match at or after `start`.
    pub fn find(&self, text: &[u16], start: usize, full_unicode: bool) -> (r: Option<MatchRecord>)
        requires
            start <= text@.len(),
        ensures
            match_view(r) == self.spec_find(text@, start, full_unicode),
            r matches Some(m) ==> start <= m.start && match_in_range(m@, text@.len()),
    {
        proof {
            use_type_invariant(self);
        }
        if !full_unicode {
            find_from_ucs2(&self.regex, text, start)
        } else if check_no_pair(text) || (!is_inside_pair(text, start) && (check_well_formed(text)
            || !check_may_backreference(self.pattern.as_slice()))) {
            find_from_utf16(&self.regex, text, start)
        } else {
            match from_unicode_unoptimized(self.pattern.as_slice(), self.flags.as_str()) {
                Ok(regex) => find_from_utf16(&regex, text, start),
                // The pattern has been compiled before.
                Err(_) => {
                    assert(false);
                    None
                },
            }
        }
    }
}

/// What a match record says is what it holds: the range of the match, of each
/// capture group and of each named group, in order and nothing left out.
pub proof fn lemma_match_view(m: MatchRecord)
    ensures
        match_view(None) is None,
        match_view(Some(m)) matches Some(model) && {
            &&& model.start == m.start
            &&& model.end == m.end
            &&& model.captures == m.captures@
            &&& model.named_groups.len() == m.named_groups@.len()
            &&& forall|i: int|
                #![trigger model.named_groups[i]]
                0 <= i < m.named_groups@.len() ==> model.named_groups[i].0
                    == m.named_groups@[i].0@ && model.named_groups[i].1 == m.named_groups@[i].1
        },
{
}

/// With `u` or `v` a pattern is compiled from its scalar values. Without both it
/// is compiled from its code units.
pub proof fn lemma_pattern_is_read_by_mode(pattern: Seq<char>, flags: RegExpFlags)
    ensures
        ({
            let points = pattern_code_points(pattern, flags);
            let unicode = flags.bits & 0x10 != 0 || flags.bits & 0x80 != 0;
            &&& unicode ==> points.len() == pattern.len()
            &&& unicode ==> forall|i: int|
                0 <= i < points.len() ==> #[trigger] points[i] == pattern[i] as int
            &&& !unicode ==> points.len() == encode(pattern).len()
            &&& !unicode ==> forall|i: int|
                0 <= i < points.len() ==> #[trigger] points[i] == encode(pattern)[i]
        }),
{
    lemma_full_unicode(flags);
    lemma_values_widen(pattern, encode(pattern));
}

/// Compiling gives what the engine makes of the pattern and the flags: a matcher
/// that runs the compiled pattern, or the message of the engine.
pub proof fn lemma_compilation_is_what_the_engine_makes(
    r: Result<Matcher, String>,
    pattern: Seq<u32>,
    flags: Seq<char>,
)
    requires
        is_compilation(r, pattern, flags),
    ensures
        r is Ok <==> regress_compile(pattern, flags) is Ok,
        r matches Ok(matcher) ==> regress_compile(pattern, flags) == Ok::<Regex, Seq<char>>(
            matcher.regex(),
        ) && matcher.pattern() == pattern && matcher.flags() == flags,
        r matches Err(message) ==> regress_compile(pattern, flags) == Err::<Regex, Seq<char>>(
            message@,
        ),
{
}

/// Finding is what the engine finds in the code units from `start` on. Without
/// Unicode mode every code unit is a character. In Unicode mode surrogate pairs
/// are characters, and the pattern is the one that was compiled or, only if the
/// search could get inside of a pair, the same compiled without the optimizer.
pub proof fn lemma_find_is_what_the_engine_finds(matcher: Matcher, text: Seq<u16>, start: usize)
    ensures
        matcher.spec_find(text, start, false) == regress_find_ucs2(matcher.regex(), text, start),
        ({
            let found = matcher.spec_find(text, start, true);
            let optimized = regress_find_utf16(matcher.regex(), text, start);
            &&& found == optimized || (regress_compile_unoptimized(
                matcher.pattern(),
                matcher.flags(),
            ) matches Ok(regex) ==> found == regress_find_utf16(regex, text, start))
            &&& (forall|i: int|
                #![trigger text[i]]
                0 <= i && i + 1 < text.len() ==> !(0xD800 <= text[i] <= 0xDBFF && 0xDC00 <= text[i
                    + 1] <= 0xDFFF)) ==> found == optimized
            &&& !(0 < start < text.len() && 0xD800 <= text[start - 1] <= 0xDBFF && 0xDC00
                <= text[start as int] <= 0xDFFF) && (forall|i: int|
                #![trigger text[i]]
                0 <= i < text.len() ==> {
                    &&& 0xD800 <= text[i] <= 0xDBFF ==> i + 1 < text.len() && 0xDC00 <= text[i + 1]
                        <= 0xDFFF
                    &&& 0xDC00 <= text[i] <= 0xDFFF ==> i > 0 && 0xD800 <= text[i - 1] <= 0xDBFF
                }) ==> found == optimized
            &&& !(0 < start < text.len() && 0xD800 <= text[start - 1] <= 0xDBFF && 0xDC00
                <= text[start as int] <= 0xDFFF) && !may_backreference(matcher.pattern()) ==> found
                == optimized
        }),
{
    lemma_well_formed(text);
    lemma_splits_pair(text, start as int);
}

/// A match in range lies within the haystack, and so does each group that took
/// part, each of them with its end not before its start. No name occurs twice.
pub proof fn lemma_match_in_range(m: MatchModel, length: nat)
    requires
        match_in_range(m, length),
    ensures
        m.start <= m.end <= length,
        m.captures.len() <= 65535,
        forall|i: int|
            #![trigger m.captures[i]]
            0 <= i < m.captures.len() ==> match m.captures[i] {
                Some((start, end)) => start <= end <= length,
                None => true,
            },
        forall|i: int|
            #![trigger m.named_groups[i]]
            0 <= i < m.named_groups.len() ==> match m.named_groups[i].1 {
                Some((start, end)) => start <= end <= length,
                None => true,
            },
        forall|i: int, j: int|
            0 <= i < j < m.named_groups.len() ==> (#[trigger] m.named_groups[i]).0 != (
            #[trigger] m.named_groups[j]).0,
{
    assert forall|i: int|
        #![trigger m.captures[i]]
        0 <= i < m.captures.len() implies capture_in_range(m.captures[i], length) by {}
    assert forall|i: int|
        #![trigger m.named_groups[i]]
        0 <= i < m.named_groups.len() implies capture_in_range(m.named_groups[i].1, length) by {}
}

/// A pattern may have backreferences if and only if somewhere a backslash is
/// directly followed by one of the digits 1 to 9 or by the letter k.
pub proof fn lemma_may_backreference(pattern: Seq<u32>)
    ensures
        may_backreference(pattern) <==> exists|i: int|
            #![trigger pattern[i]]
            0 < i < pattern.len() && pattern[i - 1] == '\\' as int && ('1' as int <= pattern[i]
                <= '9' as int || pattern[i] == 'k' as int),
{
    if may_backreference(pattern) {
        let i = choose|i: int|
            #![trigger pattern[i]]
            0 <= i && i + 1 < pattern.len() && pattern[i] == 0x5C && (0x31 <= pattern[i + 1] <= 0x39
                || pattern[i + 1] == 0x6B);
        assert(pattern[i + 1] == pattern[i + 1]);
    }
    if exists|i: int|
        #![trigger pattern[i]]
        0 < i < pattern.len() && pattern[i - 1] == '\\' as int && ('1' as int <= pattern[i] <= '9'
            as int || pattern[i] == 'k' as int) {
        let i = choose|i: int|
            #![trigger pattern[i]]
            0 < i < pattern.len() && pattern[i - 1] == '\\' as int && ('1' as int <= pattern[i]
                <= '9' as int || pattern[i] == 'k' as int);
        assert(pattern[i - 1] == 0x5C);
    }
}

/// The text of a message or of flags is the one that is there, and there is none
/// where nothing is. A compiled pattern is kept, and so is the message where
/// there is none.
pub proof fn lemma_texts_are_kept(text: String, flags: &str, regex: Regex)
    ensures
        message_view(Some(text)) == Some(text@),
        message_view(None) is None,
        flags_view(Some(flags)) == Some(flags@),
        flags_view(None) is None,
        regex_view(Ok(regex)) == Ok::<Regex, Seq<char>>(regex),
        regex_view(Err(text)) == Err::<Regex, Seq<char>>(text@),
{
}

} // verus!
