//! Input validation and sanitization helpers.
//!
//! Session identifiers are restricted to a safe character set, transcripts are
//! bounded in size, and relative paths are screened for traversal components
//! before they are joined onto a base directory.  Callers that scan
//! directories must additionally confine the joined path to the base
//! directory on the filesystem; that filesystem step is outside this library.

use vstd::prelude::*;
use vstd::string::StringSliceAdditionalSpecFns;
use vstd::string::StrSliceExecFns;
use vstd::string::StringExecFns;
use crate::strutil::contains_seq;
use crate::strutil::has_substring_at;
use crate::strutil::contains_substr;

verus! {

/// Maximum transcript size in bytes.
pub const TRANSCRIPT_MAX_BYTES: usize = 10 * 1024 * 1024;

/// Whether `char::is_alphanumeric` accepts a character: a property of the
/// character alone.
pub uninterp spec fn alnum_char(c: char) -> bool;

/// Relies on `char::is_alphanumeric`: whether the character is a Unicode
/// letter or digit, a function of the character alone.
#[verifier::external_body]
fn is_alnum_char(c: char) -> (r: bool)
    ensures
        r == alnum_char(c),
{
    c.is_alphanumeric()
}

/// Characters allowed in a session identifier: alphanumerics, hyphen and
/// underscore.
pub open spec fn is_session_id_char(c: char) -> bool {
    alnum_char(c) || c == '-' || c == '_'
}

/// A valid session identifier is non-empty, at most 256 characters, and
/// holds only allowed characters.
pub open spec fn valid_session_id_chars(s: Seq<char>) -> bool {
    &&& 0 < s.len() <= 256
    &&& forall|i: int| 0 <= i < s.len() ==> is_session_id_char(s[i])
}

/// Validates a session identifier, rejecting anything that could reach the
/// filesystem or a query as a traversal or injection vector.
pub fn validate_session_id(session_id: &str) -> (r: bool)
    ensures
        r == valid_session_id_chars(session_id@),
{
    let n = session_id.unicode_len();
    if n == 0 || n > 256 {
        return false;
    }
    let mut i: usize = 0;
    while i < n
        invariant
            n == session_id@.len(),
            0 < n <= 256,
            i <= n,
            forall|j: int| 0 <= j < i ==> is_session_id_char(session_id@[j]),
        decreases n - i,
    {
        let c = session_id.get_char(i);
        if !(is_alnum_char(c) || c == '-' || c == '_') {
            return false;
        }
        i += 1;
    }
    true
}

/// A transcript is within the size bound.
pub open spec fn transcript_size_ok(s: Seq<u8>) -> bool {
    s.len() <= TRANSCRIPT_MAX_BYTES
}

/// A transcript holds no null byte.
pub open spec fn transcript_bytes_ok(s: Seq<u8>) -> bool {
    forall|i: int| 0 <= i < s.len() ==> s[i] != 0
}

/// A transcript is acceptable for scoring.
pub open spec fn valid_transcript_bytes(s: Seq<u8>) -> bool {
    transcript_size_ok(s) && transcript_bytes_ok(s)
}

/// The message reported for an unacceptable transcript: the size bound is
/// checked first, then the null-byte scan.
pub open spec fn transcript_error_seq(s: Seq<u8>) -> Seq<char> {
    if !transcript_size_ok(s) {
        "Transcript exceeds maximum size of 10MB"@
    } else {
        "Transcript contains invalid characters"@
    }
}

/// Validates transcript content, bounding its size and rejecting null bytes.
pub fn validate_transcript<'a>(content: &'a str) -> (r: Result<&'a str, &'static str>)
    ensures
        r is Ok <==> valid_transcript_bytes(content.spec_bytes()),
        r matches Ok(t) ==> t@ == content@,
        r matches Err(m) ==> m@ == transcript_error_seq(content.spec_bytes()),
{
    let bytes = content.as_bytes();
    if bytes.len() > TRANSCRIPT_MAX_BYTES {
        return Err("Transcript exceeds maximum size of 10MB");
    }
    let mut i: usize = 0;
    while i < bytes.len()
        invariant
            bytes@ == content.spec_bytes(),
            transcript_size_ok(content.spec_bytes()),
            i <= bytes@.len(),
            forall|j: int| 0 <= j < i ==> bytes@[j] != 0,
        decreases bytes@.len() - i,
    {
        if bytes[i] == 0 {
            return Err("Transcript contains invalid characters");
        }
        i += 1;
    }
    Ok(content)
}

/// ASCII whitespace, as stripped from the ends of a path input.
pub open spec fn is_space_char(c: char) -> bool {
    c == ' ' || c == '\t' || c == '\n' || c == '\r'
}

/// The input with leading whitespace removed.
pub open spec fn trim_start_seq(s: Seq<char>) -> Seq<char>
    decreases s.len(),
{
    if s.len() > 0 && is_space_char(s[0]) {
        trim_start_seq(s.drop_first())
    } else {
        s
    }
}

/// The input with trailing whitespace removed.
pub open spec fn trim_end_seq(s: Seq<char>) -> Seq<char>
    decreases s.len(),
{
    if s.len() > 0 && is_space_char(s[s.len() - 1]) {
        trim_end_seq(s.drop_last())
    } else {
        s
    }
}

/// The input with whitespace removed from both ends.
pub open spec fn trimmed_seq(s: Seq<char>) -> Seq<char> {
    trim_end_seq(trim_start_seq(s))
}

proof fn lemma_trim_start_at(s: Seq<char>, a: int)
    requires
        0 <= a <= s.len(),
        forall|j: int| 0 <= j < a ==> is_space_char(s[j]),
        a == s.len() || !is_space_char(s[a]),
    ensures
        trim_start_seq(s) == s.subrange(a, s.len() as int),
    decreases a,
{
    if a == 0 {
        assert(s.subrange(0, s.len() as int) =~= s);
    } else {
        assert(is_space_char(s[0]));
        lemma_trim_start_at(s.drop_first(), a - 1);
        assert(s.drop_first().subrange(a - 1, s.drop_first().len() as int) =~= s.subrange(
            a,
            s.len() as int,
        ));
    }
}

proof fn lemma_trim_end_at(s: Seq<char>, b: int)
    requires
        0 <= b <= s.len(),
        forall|j: int| b <= j < s.len() ==> is_space_char(s[j]),
        b == 0 || !is_space_char(s[b - 1]),
    ensures
        trim_end_seq(s) == s.subrange(0, b),
    decreases s.len() - b,
{
    if b == s.len() {
        assert(s.subrange(0, b) =~= s);
    } else {
        assert(is_space_char(s[s.len() - 1]));
        lemma_trim_end_at(s.drop_last(), b);
        assert(s.drop_last().subrange(0, b) =~= s.subrange(0, b));
    }
}

/// Whether a character counts as trimmable whitespace.
fn is_space(c: char) -> (r: bool)
    ensures
        r == is_space_char(c),
{
    c == ' ' || c == '\t' || c == '\n' || c == '\r'
}

/// A trimmed path input is acceptable when it has no traversal component, no
/// home-directory reference, and is not absolute.
pub open spec fn path_input_ok(t: Seq<char>) -> bool {
    &&& !contains_seq(t, ".."@)
    &&& !contains_seq(t, "~"@)
    &&& !(t.len() > 0 && t[0] == '/')
}

/// The base directory joined with the accepted relative input.
pub open spec fn joined_path_seq(base: Seq<char>, t: Seq<char>) -> Seq<char> {
    base + "/"@ + t
}

/// Screens a path input against directory traversal and joins it onto the
/// base directory.  The caller remains responsible for confining the joined
/// path on the real filesystem before using it.
pub fn sanitize_path(base_path: &str, input_path: &str) -> (r: Option<String>)
    ensures
        r is Some <==> path_input_ok(trimmed_seq(input_path@)),
        r matches Some(p) ==> p@ == joined_path_seq(base_path@, trimmed_seq(input_path@)),
{
    let n = input_path.unicode_len();
    let mut a: usize = 0;
    while a < n && is_space(input_path.get_char(a))
        invariant
            n == input_path@.len(),
            a <= n,
            forall|j: int| 0 <= j < a ==> is_space_char(input_path@[j]),
        decreases n - a,
    {
        a += 1;
    }
    let mut b: usize = n;
    while b > a && is_space(input_path.get_char(b - 1))
        invariant
            n == input_path@.len(),
            a <= b <= n,
            forall|j: int| b <= j < n ==> is_space_char(input_path@[j]),
        decreases b,
    {
        b -= 1;
    }
    proof {
        lemma_trim_start_at(input_path@, a as int);
        lemma_trim_end_at(
            input_path@.subrange(a as int, n as int),
            b - a,
        );
        assert(input_path@.subrange(a as int, n as int).subrange(0, b - a) =~= input_path@
            .subrange(a as int, b as int));
        assert(trimmed_seq(input_path@) == input_path@.subrange(a as int, b as int));
    }
    let trimmed = input_path.substring_char(a, b);
    if contains_substr(trimmed, "..") || contains_substr(trimmed, "~") {
        return None;
    }
    if trimmed.unicode_len() > 0 && trimmed.get_char(0) == '/' {
        return None;
    }
    let mut joined = String::from_str(base_path);
    joined.append("/");
    joined.append(trimmed);
    Some(joined)
}

} // verus!
