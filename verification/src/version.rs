//! Reading the version that the prover's executable reports, and holding it
//! against the version that is required.

use crate::text::chars_of;
use crate::text::is_ascii_digit;
use crate::text::ascii_digit;
use crate::text::range_contains;
use crate::text::ranges_equal;
use crate::text::scan_forward;
use crate::text::split;
use crate::text::trim_start_matches;
use crate::text::words;
use crate::text::CharClass;
use vstd::prelude::*;

verus! {

/// Why a version check failed.
#[derive(Debug, PartialEq, Eq)]
pub enum VersionError {
    /// No word of the executable's output looks like a version.
    NoVersion { output: String },
    /// The required version has no minor part.
    InvalidRequired { required: String },
    /// The version found has no minor part.
    InvalidActual { actual: String },
    /// The version found differs from the required one in its major or minor
    /// part.
    Mismatch { found: String, required: String },
}

impl VersionError {
    /// The error in words.
    pub open spec fn spec_message(self) -> Seq<char> {
        match self {
            VersionError::NoVersion { output } => "Could not extract version from r0vm output: "@
                + output@,
            VersionError::InvalidRequired { required } => "Invalid required version format: "@
                + required@ + ". Expected format: <major>.<minor>"@,
            VersionError::InvalidActual { actual } => "Invalid actual version format: "@ + actual@,
            VersionError::Mismatch { found, required } => "r0vm version mismatch: found "@ + found@
                + ", required "@ + required@,
        }
    }

    /// The error in words.
    pub fn message(&self) -> (text: String)
        ensures
            text@ == self.spec_message(),
    {
        match self {
            VersionError::NoVersion { output } => {
                let mut text = String::from_str("Could not extract version from r0vm output: ");
                text.append(output.as_str());
                text
            },
            VersionError::InvalidRequired { required } => {
                let mut text = String::from_str("Invalid required version format: ");
                text.append(required.as_str());
                text.append(". Expected format: <major>.<minor>");
                text
            },
            VersionError::InvalidActual { actual } => {
                let mut text = String::from_str("Invalid actual version format: ");
                text.append(actual.as_str());
                text
            },
            VersionError::Mismatch { found, required } => {
                let mut text = String::from_str("r0vm version mismatch: found ");
                text.append(found.as_str());
                text.append(", required ");
                text.append(required.as_str());
                text
            },
        }
    }
}

/// The version that `word` holds: the word without any leading `v`, if that
/// begins with a digit and has a dot in it.
pub open spec fn version_in(word: Seq<char>) -> Option<Seq<char>> {
    let cleaned = trim_start_matches(word, CharClass::Only('v'));
    if cleaned.len() > 0 && is_ascii_digit(cleaned[0]) && cleaned.contains('.') {
        Some(cleaned)
    } else {
        None
    }
}

/// The version held by the first of `list` that holds one.
pub open spec fn first_version(list: Seq<Seq<char>>) -> Option<Seq<char>>
    decreases list.len(),
{
    if list.len() == 0 {
        None
    } else {
        match version_in(list[0]) {
            Some(version) => Some(version),
            None => first_version(list.drop_first()),
        }
    }
}

/// The version that the output of the executable reports: that of the first
/// of its words which holds one.
pub open spec fn spec_extract_version(output: Seq<char>) -> Option<Seq<char>> {
    first_version(words(output))
}

/// Whether a version has a major and a minor part, separated by a dot.
pub open spec fn has_minor(version: Seq<char>) -> bool {
    split(version, '.').len() >= 2
}

/// Whether two versions have the same major and the same minor part.
pub open spec fn same_major_minor(actual: Seq<char>, required: Seq<char>) -> bool {
    split(actual, '.')[0] == split(required, '.')[0] && split(actual, '.')[1] == split(
        required,
        '.',
    )[1]
}

/// The first word of a list decides its first version, or leaves that to the
/// rest of the list.
proof fn lemma_first_version_cons(word: Seq<char>, rest: Seq<Seq<char>>)
    ensures
        first_version(seq![word] + rest) == match version_in(word) {
            Some(version) => Some(version),
            None => first_version(rest),
        },
{
    assert((seq![word] + rest).drop_first() =~= rest);
}

/// Reads the version out of what the executable printed for `--version`.
pub fn extract_version(output: &str) -> (version: Result<String, VersionError>)
    ensures
        match version {
            Ok(version) => spec_extract_version(output@) == Some(version@),
            Err(VersionError::NoVersion { output: text }) => spec_extract_version(output@) is None
                && text@ == output@,
            Err(_) => false,
        },
{
    let v = chars_of(output);
    let len = v.len();
    let mut pos: usize = 0;
    assert(v@.subrange(0, len as int) =~= v@);
    loop
        invariant
            pos <= len == v.len(),
            v@ == output@,
            spec_extract_version(output@) == first_version(words(v@.subrange(pos as int, len as int))),
        decreases len - pos,
    {
        let ghost rest = v@.subrange(pos as int, len as int);
        let start = scan_forward(&v, pos, len, CharClass::Whitespace);
        let end = scan_forward(&v, start, len, CharClass::NonWhitespace);
        proof {
            assert(rest.skip(start - pos) =~= v@.subrange(start as int, len as int));
        }
        if end == start {
            return Err(VersionError::NoVersion { output: String::from_str(output) });
        }
        let ghost word = v@.subrange(start as int, end as int);
        proof {
            let tail = v@.subrange(start as int, len as int);
            assert(tail.take(end - start) =~= word);
            assert(tail.skip(end - start) =~= v@.subrange(end as int, len as int));
            lemma_first_version_cons(word, words(v@.subrange(end as int, len as int)));
        }
        let first = scan_forward(&v, start, end, CharClass::Only('v'));
        proof {
            assert(word.skip(first - start) =~= v@.subrange(first as int, end as int));
        }
        if first < end && ascii_digit(v[first]) && range_contains(&v, first, end, '.') {
            return Ok(String::from_str(output.substring_char(first, end)));
        }
        pos = end;
    }
}

/// The bounds of the first two dot-separated parts of `v`, if it has two.
fn major_minor(v: &Vec<char>) -> (parts: Option<(usize, usize)>)
    ensures
        match parts {
            Some((dot, end)) => dot < end <= v.len() && has_minor(v@) && split(v@, '.')[0]
                == v@.subrange(0, dot as int) && split(v@, '.')[1] == v@.subrange(
                dot + 1,
                end as int,
            ),
            None => !has_minor(v@),
        },
{
    let len = v.len();
    let dot = scan_forward(v, 0, len, CharClass::Except('.'));
    assert(v@.subrange(0, len as int) =~= v@);
    if dot >= len {
        return None;
    }
    let end = scan_forward(v, dot + 1, len, CharClass::Except('.'));
    proof {
        let rest = v@.skip(dot + 1);
        assert(rest =~= v@.subrange(dot + 1, len as int));
        assert(v@.take(dot as int) =~= v@.subrange(0, dot as int));
        assert(rest.take(end - dot - 1) =~= v@.subrange(dot + 1, end as int));
        assert(split(rest, '.')[0] == rest.take(end - dot - 1));
        assert(split(v@, '.') == seq![v@.take(dot as int)] + split(rest, '.'));
    }
    Some((dot, end))
}

/// Whether the version `actual` has the major and minor parts that
/// `required` asks for.
pub fn version_matches(actual: &str, required: &str) -> (same: Result<bool, VersionError>)
    ensures
        match same {
            Ok(same) => has_minor(required@) && has_minor(actual@) && same == same_major_minor(
                actual@,
                required@,
            ),
            Err(VersionError::InvalidRequired { required: text }) => !has_minor(required@) && text@
                == required@,
            Err(VersionError::InvalidActual { actual: text }) => has_minor(required@) && !has_minor(
                actual@,
            ) && text@ == actual@,
            Err(_) => false,
        },
{
    let a = chars_of(actual);
    let r = chars_of(required);
    let (r_dot, r_end) = match major_minor(&r) {
        Some(parts) => parts,
        None => {
            return Err(VersionError::InvalidRequired { required: String::from_str(required) });
        },
    };
    let (a_dot, a_end) = match major_minor(&a) {
        Some(parts) => parts,
        None => {
            return Err(VersionError::InvalidActual { actual: String::from_str(actual) });
        },
    };
    let major = ranges_equal(&a, 0, a_dot, &r, 0, r_dot);
    let minor = ranges_equal(&a, a_dot + 1, a_end, &r, r_dot + 1, r_end);
    Ok(major && minor)
}

/// What the output of the executable means for a required version: the check
/// passes when the output reports a version with the required major and minor
/// parts.
pub open spec fn spec_check_version_output(output: Seq<char>, required: Seq<char>) -> bool {
    spec_extract_version(output) matches Some(found) && has_minor(required) && has_minor(found)
        && same_major_minor(found, required)
}

/// Checks what the executable printed for `--version` against the version
/// that is required.
pub fn check_version_output(output: &str, required: &str) -> (checked: Result<(), VersionError>)
    ensures
        checked is Ok <==> spec_check_version_output(output@, required@),
        match checked {
            Ok(_) => true,
            Err(VersionError::NoVersion { output: text }) => spec_extract_version(output@) is None
                && text@ == output@,
            Err(VersionError::InvalidRequired { required: text }) => spec_extract_version(output@)
                is Some && !has_minor(required@) && text@ == required@,
            Err(VersionError::InvalidActual { actual: text }) => spec_extract_version(output@)
                == Some(text@) && has_minor(required@) && !has_minor(text@),
            Err(VersionError::Mismatch { found, required: text }) => spec_extract_version(output@)
                == Some(found@) && text@ == required@ && has_minor(required@) && has_minor(found@)
                && !same_major_minor(found@, required@),
        },
{
    let found = match extract_version(output) {
        Ok(found) => found,
        Err(error) => {
            return Err(error);
        },
    };
    match version_matches(found.as_str(), required) {
        Ok(true) => Ok(()),
        Ok(false) => Err(
            VersionError::Mismatch { found, required: String::from_str(required) },
        ),
        Err(error) => Err(error),
    }
}

} // verus!
