//! How the times of a replay's inputs are written, and how the game version
//! tells it.

use vstd::prelude::*;

verus! {

/// How the time of an input is written in a replay.
///
/// Before version 0.17.22 the game wrote the time that had passed since the
/// input before; from that version on it writes the frame itself.
#[derive(Clone, Copy, Debug, PartialEq, Eq, Hash, Structural)]
pub enum InputParseMode {
    /// Each time is counted from the frame of the input before it, the first
    /// from frame zero.
    Relative,
    /// Each time is the frame itself.
    Absolute,
}

/// Whether `char::is_whitespace` holds of a character: whether Unicode gives
/// it the property `White_Space`.
pub uninterp spec fn char_is_whitespace(c: char) -> bool;

/// Whether `char::is_numeric` holds of a character: whether Unicode puts it
/// in one of the general categories for numbers.
pub uninterp spec fn char_is_numeric(c: char) -> bool;

/// What `semver::Version::parse` makes of a text: nothing where the text is
/// no semantic version, else the major, minor and patch numbers and the
/// pre-release tag, which is empty for a release.
pub uninterp spec fn semver_parsed(text: Seq<char>) -> Option<(u64, u64, u64, Seq<char>)>;

/// `char::is_whitespace` of std. The contract gives its result a name.
#[verifier::external_body]
fn is_whitespace(c: char) -> (b: bool)
    ensures
        b == char_is_whitespace(c),
{
    c.is_whitespace()
}

/// `char::is_numeric` of std. The contract gives its result a name.
#[verifier::external_body]
fn is_numeric(c: char) -> (b: bool)
    ensures
        b == char_is_numeric(c),
{
    c.is_numeric()
}

/// `semver::Version::parse` on the text that `text` spells. The contract
/// gives its result a name; the numbers and the pre-release tag are handed
/// out as the version holds them, and the build metadata is left behind.
#[verifier::external_body]
fn parse_semver(text: &Vec<char>) -> (version: Option<(u64, u64, u64, String)>)
    ensures
        match version {
            Some(v) => semver_parsed(text@) == Some((v.0, v.1, v.2, v.3@)),
            None => semver_parsed(text@) is None,
        },
{
    let text: String = text.iter().collect();
    match semver::Version::parse(&text) {
        Ok(v) => Some((v.major, v.minor, v.patch, v.pre.as_str().to_owned())),
        Err(_) => None,
    }
}

/// The lower-case form of an ASCII capital; any other character as it is.
pub open spec fn ascii_lower(c: char) -> char {
    if 'A' <= c && c <= 'Z' {
        ((c as u8) + 32) as char
    } else {
        c
    }
}

/// `text` with its ASCII capitals in lower case.
pub open spec fn ascii_lowercase(text: Seq<char>) -> Seq<char> {
    Seq::new(text.len(), |i: int| ascii_lower(text[i]))
}

/// `text` without the characters `c` that it starts with.
pub open spec fn trim_leading_char(text: Seq<char>, c: char) -> Seq<char>
    decreases text.len(),
{
    if text.len() > 0 && text[0] == c {
        trim_leading_char(text.drop_first(), c)
    } else {
        text
    }
}

/// `text` without the copies of `pattern` that it starts with.
pub open spec fn trim_leading_text(text: Seq<char>, pattern: Seq<char>) -> Seq<char>
    decreases text.len(),
{
    if pattern.len() > 0 && pattern.is_prefix_of(text) {
        trim_leading_text(text.skip(pattern.len() as int), pattern)
    } else {
        text
    }
}

/// `text` without the whitespace that it starts with.
pub open spec fn trim_leading_whitespace(text: Seq<char>) -> Seq<char>
    decreases text.len(),
{
    if text.len() > 0 && char_is_whitespace(text[0]) {
        trim_leading_whitespace(text.drop_first())
    } else {
        text
    }
}

/// Whether `pattern` stands somewhere in `text`.
pub open spec fn contains_text(text: Seq<char>, pattern: Seq<char>) -> bool {
    exists|i: int| 0 <= i <= text.len() && #[trigger] pattern.is_prefix_of(text.skip(i))
}

/// `text` up to its first `c`, or all of it where it has none.
pub open spec fn before_first(text: Seq<char>, c: char) -> Seq<char>
    decreases text.len(),
{
    if text.len() == 0 || text[0] == c {
        Seq::empty()
    } else {
        seq![text[0]] + before_first(text.drop_first(), c)
    }
}

/// The numeric characters and the dots of `text`, in their order.
pub open spec fn digits_and_dots(text: Seq<char>) -> Seq<char>
    decreases text.len(),
{
    if text.len() == 0 {
        Seq::empty()
    } else if char_is_numeric(text[0]) || text[0] == '.' {
        seq![text[0]] + digits_and_dots(text.drop_first())
    } else {
        digits_and_dots(text.drop_first())
    }
}

/// A version string as the inference reads it: in lower case, without any
/// leading `v`, then without any leading `alpha`, then without leading
/// whitespace.
pub open spec fn normalized_version(version: Seq<char>) -> Seq<char> {
    trim_leading_whitespace(
        trim_leading_text(trim_leading_char(ascii_lowercase(version), 'v'), "alpha"@),
    )
}

/// The part of a normalized version string that should spell a version
/// number: what stands before the first `@` and before the first space, and
/// of that the numeric characters and the dots.
pub open spec fn version_number_text(normalized: Seq<char>) -> Seq<char> {
    digits_and_dots(before_first(before_first(normalized, '@'), ' '))
}

/// Whether a version with these numbers and this pre-release tag comes
/// before the release that `InputParseMode::ABSOLUTE_TIMING_START` names:
/// the numbers are compared from the left, and with equal numbers a
/// pre-release comes before the release.
pub open spec fn before_absolute_timing(
    major: u64,
    minor: u64,
    patch: u64,
    pre_release: Seq<char>,
) -> bool {
    let start = InputParseMode::ABSOLUTE_TIMING_START;
    if major != start.0 {
        major < start.0
    } else if minor != start.1 {
        minor < start.1
    } else if patch != start.2 {
        patch < start.2
    } else {
        pre_release.len() > 0
    }
}

fn lower(c: char) -> (l: char)
    ensures
        l == ascii_lower(c),
{
    if 'A' <= c && c <= 'Z' {
        ((c as u8) + 32) as char
    } else {
        c
    }
}

fn lowercase_chars(text: &str) -> (chars: Vec<char>)
    ensures
        chars@ == ascii_lowercase(text@),
{
    let mut chars: Vec<char> = Vec::new();
    for c in it: text.chars()
        invariant
            it.seq() == text@,
            chars@ == ascii_lowercase(text@.take(it.index())),
    {
        chars.push(lower(c));
    }
    chars
}

/// The index behind the characters `c` that stand at `from`.
fn skip_char(text: &Vec<char>, from: usize, c: char) -> (to: usize)
    requires
        from <= text@.len(),
    ensures
        from <= to <= text@.len(),
        text@.skip(to as int) == trim_leading_char(text@.skip(from as int), c),
{
    let mut to: usize = from;
    while to < text.len() && text[to] == c
        invariant
            from <= to <= text@.len(),
            trim_leading_char(text@.skip(to as int), c) == trim_leading_char(
                text@.skip(from as int),
                c,
            ),
        decreases text@.len() - to,
    {
        proof {
            assert(text@.skip(to as int).drop_first() =~= text@.skip(to + 1));
        }
        to += 1;
    }
    to
}

/// The index behind the whitespace that stands at `from`.
fn skip_whitespace(text: &Vec<char>, from: usize) -> (to: usize)
    requires
        from <= text@.len(),
    ensures
        from <= to <= text@.len(),
        text@.skip(to as int) == trim_leading_whitespace(text@.skip(from as int)),
{
    let mut to: usize = from;
    while to < text.len() && is_whitespace(text[to])
        invariant
            from <= to <= text@.len(),
            trim_leading_whitespace(text@.skip(to as int)) == trim_leading_whitespace(
                text@.skip(from as int),
            ),
        decreases text@.len() - to,
    {
        proof {
            assert(text@.skip(to as int).drop_first() =~= text@.skip(to + 1));
        }
        to += 1;
    }
    to
}

/// Whether `pattern` stands in `text` at `at`.
fn matches_at(text: &Vec<char>, at: usize, pattern: &str) -> (found: bool)
    requires
        at <= text@.len(),
    ensures
        found == pattern@.is_prefix_of(text@.skip(at as int)),
{
    let length = pattern.unicode_len();
    if length > text.len() - at {
        return false;
    }
    let mut i: usize = 0;
    while i < length
        invariant
            i <= length,
            length == pattern@.len(),
            at + length <= text@.len() <= usize::MAX,
            forall|k: int| 0 <= k < i ==> pattern@[k] == text@[at + k],
        decreases length - i,
    {
        if pattern.get_char(i) != text[at + i] {
            proof {
                assert(text@.skip(at as int)[i as int] == text@[at + i]);
            }
            return false;
        }
        i += 1;
    }
    proof {
        assert(pattern@ =~= text@.skip(at as int).subrange(0, pattern@.len() as int));
    }
    true
}

/// The index behind the copies of `pattern` that stand at `from`.
fn skip_text(text: &Vec<char>, from: usize, pattern: &str) -> (to: usize)
    requires
        from <= text@.len(),
    ensures
        from <= to <= text@.len(),
        text@.skip(to as int) == trim_leading_text(text@.skip(from as int), pattern@),
{
    let length = pattern.unicode_len();
    if length == 0 || from == text.len() {
        return from;
    }
    let mut to: usize = from;
    while matches_at(text, to, pattern)
        invariant
            from <= to <= text@.len() <= usize::MAX,
            length == pattern@.len(),
            length > 0,
            trim_leading_text(text@.skip(to as int), pattern@) == trim_leading_text(
                text@.skip(from as int),
                pattern@,
            ),
        decreases text@.len() - to,
    {
        proof {
            assert(text@.skip(to as int).len() == text@.len() - to);
            assert(text@.skip(to as int).skip(length as int) =~= text@.skip(to + length));
        }
        to += length;
    }
    to
}

/// Whether `pattern` stands somewhere in `text` at or behind `from`.
fn contains_from(text: &Vec<char>, from: usize, pattern: &str) -> (found: bool)
    requires
        from <= text@.len(),
    ensures
        found == contains_text(text@.skip(from as int), pattern@),
{
    let ghost tail = text@.skip(from as int);
    let mut at: usize = from;
    loop
        invariant
            from <= at <= text@.len(),
            tail == text@.skip(from as int),
            forall|i: int| 0 <= i < at - from ==> !#[trigger] pattern@.is_prefix_of(tail.skip(i)),
        decreases text@.len() - at,
    {
        proof {
            assert(tail.skip(at - from) =~= text@.skip(at as int));
        }
        if matches_at(text, at, pattern) {
            return true;
        }
        if at == text.len() {
            return false;
        }
        at += 1;
    }
}

/// The index of the first `c` of `text` between `from` and `to`, or `to`
/// where there is none.
fn find_char(text: &Vec<char>, from: usize, to: usize, c: char) -> (at: usize)
    requires
        from <= to <= text@.len(),
    ensures
        from <= at <= to,
        text@.subrange(from as int, at as int) == before_first(
            text@.subrange(from as int, to as int),
            c,
        ),
{
    let mut at: usize = from;
    proof {
        assert(text@.subrange(from as int, from as int) + before_first(
            text@.subrange(from as int, to as int),
            c,
        ) =~= before_first(text@.subrange(from as int, to as int), c));
    }
    while at < to && text[at] != c
        invariant
            from <= at <= to <= text@.len(),
            text@.subrange(from as int, at as int) + before_first(
                text@.subrange(at as int, to as int),
                c,
            ) == before_first(text@.subrange(from as int, to as int), c),
        decreases to - at,
    {
        proof {
            let rest = text@.subrange(at as int, to as int);
            assert(rest.drop_first() =~= text@.subrange(at + 1, to as int));
            assert(text@.subrange(from as int, at as int) + (seq![text@[at as int]] + before_first(
                rest.drop_first(),
                c,
            )) =~= text@.subrange(from as int, at + 1) + before_first(rest.drop_first(), c));
        }
        at += 1;
    }
    proof {
        assert(text@.subrange(from as int, at as int) + Seq::<char>::empty()
            =~= text@.subrange(from as int, at as int));
    }
    at
}

/// The numeric characters and the dots of `text` between `from` and `to`.
fn keep_digits_and_dots(text: &Vec<char>, from: usize, to: usize) -> (kept: Vec<char>)
    requires
        from <= to <= text@.len(),
    ensures
        kept@ == digits_and_dots(text@.subrange(from as int, to as int)),
{
    let mut kept: Vec<char> = Vec::new();
    let mut at: usize = from;
    proof {
        assert(kept@ + digits_and_dots(text@.subrange(from as int, to as int)) =~= digits_and_dots(
            text@.subrange(from as int, to as int),
        ));
    }
    while at < to
        invariant
            from <= at <= to <= text@.len(),
            kept@ + digits_and_dots(text@.subrange(at as int, to as int)) == digits_and_dots(
                text@.subrange(from as int, to as int),
            ),
        decreases to - at,
    {
        let c = text[at];
        proof {
            let rest = text@.subrange(at as int, to as int);
            assert(rest.drop_first() =~= text@.subrange(at + 1, to as int));
            assert(kept@ + (seq![c] + digits_and_dots(rest.drop_first())) =~= kept@.push(c)
                + digits_and_dots(rest.drop_first()));
        }
        if is_numeric(c) || c == '.' {
            kept.push(c);
        }
        at += 1;
    }
    proof {
        assert(kept@ + Seq::<char>::empty() =~= kept@);
    }
    kept
}

impl InputParseMode {
    /// The first version of the game that writes absolute times: major,
    /// minor and patch number.
    pub const ABSOLUTE_TIMING_START: (u64, u64, u64) = (0, 17, 22);

    /// The mode that a game version tells, if it tells one.
    ///
    /// The version is read in lower case, without leading `v`, `alpha` and
    /// whitespace. The marks of two forks that kept relative times decide at
    /// once: `wtf` anywhere, or `unofficial expansion` at the start. Else
    /// what stands before the first `@` and the first space must hold a
    /// semantic version in its numeric characters and dots; a version before
    /// `ABSOLUTE_TIMING_START` tells relative times, any other absolute
    /// times.
    pub open spec fn inferred(version: Seq<char>) -> Option<InputParseMode> {
        let text = normalized_version(version);
        if contains_text(text, "wtf"@) {
            Some(InputParseMode::Relative)
        } else if "unofficial expansion"@.is_prefix_of(text) {
            Some(InputParseMode::Relative)
        } else {
            match semver_parsed(version_number_text(text)) {
                Some((major, minor, patch, pre_release)) => if before_absolute_timing(
                    major,
                    minor,
                    patch,
                    pre_release,
                ) {
                    Some(InputParseMode::Relative)
                } else {
                    Some(InputParseMode::Absolute)
                },
                None => None,
            }
        }
    }

    /// Tells from the version of the game how a replay's inputs are timed.
    /// Where the version tells nothing, the result is `None`.
    pub fn try_infer_from_version(version: &str) -> (mode: Option<InputParseMode>)
        ensures
            mode == InputParseMode::inferred(version@),
    {
        let lower = lowercase_chars(version);
        let after_v = skip_char(&lower, 0, 'v');
        let after_alpha = skip_text(&lower, after_v, "alpha");
        let start = skip_whitespace(&lower, after_alpha);
        proof {
            assert(lower@.skip(0) =~= lower@);
            assert(lower@.skip(start as int) == normalized_version(version@));
        }
        if contains_from(&lower, start, "wtf") {
            return Some(InputParseMode::Relative);
        }
        if matches_at(&lower, start, "unofficial expansion") {
            return Some(InputParseMode::Relative);
        }
        let at_sign = find_char(&lower, start, lower.len(), '@');
        let space = find_char(&lower, start, at_sign, ' ');
        proof {
            assert(lower@.subrange(start as int, lower@.len() as int) =~= lower@.skip(start as int));
            assert(lower@.subrange(start as int, at_sign as int).subrange(0, space - start)
                =~= lower@.subrange(start as int, space as int));
            assert(lower@.subrange(start as int, at_sign as int).subrange(
                0,
                at_sign - start,
            ) =~= lower@.subrange(start as int, at_sign as int));
        }
        let number = keep_digits_and_dots(&lower, start, space);
        match parse_semver(&number) {
            Some((major, minor, patch, pre_release)) => {
                let threshold = InputParseMode::ABSOLUTE_TIMING_START;
                let before = if major != threshold.0 {
                    major < threshold.0
                } else if minor != threshold.1 {
                    minor < threshold.1
                } else if patch != threshold.2 {
                    patch < threshold.2
                } else {
                    !pre_release.as_str().is_empty()
                };
                if before {
                    Some(InputParseMode::Relative)
                } else {
                    Some(InputParseMode::Absolute)
                }
            },
            None => None,
        }
    }
}

} // verus!
