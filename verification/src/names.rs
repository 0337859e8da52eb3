//! The grammar of package names and of version numbers.

use vstd::prelude::*;
use vstd::string::*;
use crate::error::{error_invalid_request, specialize, ApiError, ErrorKind};
use crate::text::{after, before, find_byte, DOT, HYPHEN, PLUS, UNDERSCORE};

verus! {

/// The longest name a package may have, in bytes.
pub const MAX_NAME_LENGTH: usize = 64;

/// An ASCII letter.
pub open spec fn is_letter(b: u8) -> bool {
    (0x41 <= b <= 0x5a) || (0x61 <= b <= 0x7a)
}

/// An ASCII digit.
pub open spec fn is_digit(b: u8) -> bool {
    0x30 <= b <= 0x39
}

/// A byte that may stand in a package name.
pub open spec fn is_name_byte(b: u8) -> bool {
    is_letter(b) || is_digit(b) || b == HYPHEN || b == UNDERSCORE
}

/// A package name: one to sixty-four ASCII letters, digits, hyphens and
/// underscores, the first of them a letter.
pub open spec fn is_package_name(name: Seq<u8>) -> bool {
    &&& 1 <= name.len() <= MAX_NAME_LENGTH
    &&& is_letter(name[0])
    &&& forall|i: int| 0 <= i < name.len() ==> is_name_byte(#[trigger] name[i])
}

/// A byte that may stand in the name of a feature.
pub open spec fn is_feature_byte(b: u8) -> bool {
    is_letter(b) || is_digit(b) || b == UNDERSCORE || b == HYPHEN || b == PLUS || b == DOT
}

/// The name of a feature: ASCII letters, digits, underscores, hyphens, plus
/// signs and dots, the first of them a letter, a digit or an underscore.
pub open spec fn is_feature_name(name: Seq<u8>) -> bool {
    &&& name.len() >= 1
    &&& (is_letter(name[0]) || is_digit(name[0]) || name[0] == UNDERSCORE)
    &&& forall|i: int| 0 <= i < name.len() ==> is_feature_byte(#[trigger] name[i])
}

/// A byte that may stand in an identifier of a version: a letter, a digit or
/// a hyphen.
pub open spec fn is_ident_byte(b: u8) -> bool {
    is_letter(b) || is_digit(b) || b == HYPHEN
}

/// Every byte is a digit.
pub open spec fn all_digits(s: Seq<u8>) -> bool {
    forall|i: int| 0 <= i < s.len() ==> is_digit(#[trigger] s[i])
}

/// Every byte may stand in an identifier.
pub open spec fn all_ident_bytes(s: Seq<u8>) -> bool {
    forall|i: int| 0 <= i < s.len() ==> is_ident_byte(#[trigger] s[i])
}

/// A number without a sign and without a leading zero.
pub open spec fn is_numeric_id(s: Seq<u8>) -> bool {
    &&& s.len() > 0
    &&& all_digits(s)
    &&& (s.len() == 1 || s[0] != 0x30)
}

/// One identifier of a pre-release (`strict`) or of build metadata: not empty,
/// made of identifier bytes, and in a pre-release not a number with a leading
/// zero.
pub open spec fn is_identifier(s: Seq<u8>, strict: bool) -> bool {
    &&& s.len() > 0
    &&& all_ident_bytes(s)
    &&& (strict && all_digits(s) ==> s.len() == 1 || s[0] != 0x30)
}

/// A list of identifiers separated by dots.
pub open spec fn is_identifier_list(s: Seq<u8>, strict: bool) -> bool
    decreases s.len(),
{
    let p = crate::text::first_position(s, DOT);
    if 0 <= p < s.len() {
        is_identifier(s.subrange(0, p), strict) && is_identifier_list(
            s.subrange(p + 1, s.len() as int),
            strict,
        )
    } else {
        is_identifier(s, strict)
    }
}

/// The three numbers of a version, separated by dots.
pub open spec fn is_version_core(s: Seq<u8>) -> bool {
    let rest = after(s, DOT);
    &&& rest is Some
    &&& after(rest->0, DOT) is Some
    &&& is_numeric_id(before(s, DOT))
    &&& is_numeric_id(before(rest->0, DOT))
    &&& is_numeric_id(after(rest->0, DOT)->0)
}

/// A semantic version: three numbers, then optionally a hyphen and a
/// pre-release, then optionally a plus sign and build metadata.
pub open spec fn is_semver(s: Seq<u8>) -> bool {
    let head = before(s, PLUS);
    let build = after(s, PLUS);
    let pre = after(head, HYPHEN);
    &&& is_version_core(before(head, HYPHEN))
    &&& (pre is Some ==> is_identifier_list(pre->0, true))
    &&& (build is Some ==> is_identifier_list(build->0, false))
}

fn byte_is_letter(b: u8) -> (r: bool)
    ensures
        r == is_letter(b),
{
    (0x41 <= b && b <= 0x5a) || (0x61 <= b && b <= 0x7a)
}

fn byte_is_digit(b: u8) -> (r: bool)
    ensures
        r == is_digit(b),
{
    0x30 <= b && b <= 0x39
}

/// Whether the text is a package name.
pub fn is_valid_package_name(name: &str) -> (r: bool)
    ensures
        r == is_package_name(name.spec_bytes()),
{
    is_package_name_bytes(name.as_bytes())
}

/// Whether the bytes spell a package name.
pub fn is_package_name_bytes(bytes: &[u8]) -> (r: bool)
    ensures
        r == is_package_name(bytes@),
{
    let n = bytes.len();
    if n == 0 || n > MAX_NAME_LENGTH {
        return false;
    }
    if !byte_is_letter(bytes[0]) {
        return false;
    }
    let mut i: usize = 0;
    while i < n
        invariant
            i <= n,
            n == bytes.len(),
            forall|j: int| 0 <= j < i ==> is_name_byte(#[trigger] bytes@[j]),
        decreases n - i,
    {
        let b = bytes[i];
        if !(byte_is_letter(b) || byte_is_digit(b) || b == HYPHEN || b == UNDERSCORE) {
            assert(!is_name_byte(bytes@[i as int]));
            return false;
        }
        i += 1;
    }
    true
}

/// Whether the text is the name of a feature.
pub fn is_valid_feature_name(name: &str) -> (r: bool)
    ensures
        r == is_feature_name(name.spec_bytes()),
{
    let bytes = name.as_bytes();
    let n = bytes.len();
    if n == 0 {
        return false;
    }
    let first = bytes[0];
    if !(byte_is_letter(first) || byte_is_digit(first) || first == UNDERSCORE) {
        return false;
    }
    let mut i: usize = 0;
    while i < n
        invariant
            i <= n,
            n == bytes.len(),
            bytes@ == name.spec_bytes(),
            forall|j: int| 0 <= j < i ==> is_feature_byte(#[trigger] bytes@[j]),
        decreases n - i,
    {
        let b = bytes[i];
        if !(byte_is_letter(b) || byte_is_digit(b) || b == UNDERSCORE || b == HYPHEN || b == PLUS
            || b == DOT) {
            assert(!is_feature_byte(bytes@[i as int]));
            return false;
        }
        i += 1;
    }
    true
}

/// Accepts a package name and refuses any other text as an invalid request.
pub fn validate_package_name(name: &str) -> (r: Result<(), ApiError>)
    ensures
        r is Ok <==> is_package_name(name.spec_bytes()),
        r is Err ==> r->Err_0.is_detailed(ErrorKind::InvalidRequest, "invalid package name"@),
{
    if is_valid_package_name(name) {
        Ok(())
    } else {
        Err(specialize(error_invalid_request(), "invalid package name".to_owned()))
    }
}

fn range_is_numeric_id(bytes: &[u8], from: usize, to: usize) -> (r: bool)
    requires
        from <= to <= bytes.len(),
    ensures
        r == is_numeric_id(bytes@.subrange(from as int, to as int)),
{
    let ghost s = bytes@.subrange(from as int, to as int);
    if from == to {
        return false;
    }
    if to - from > 1 && bytes[from] == 0x30 {
        assert(s[0] == 0x30);
        return false;
    }
    let mut i: usize = from;
    while i < to
        invariant
            from <= i <= to <= bytes.len(),
            s == bytes@.subrange(from as int, to as int),
            forall|j: int| 0 <= j < i - from ==> is_digit(#[trigger] s[j]),
        decreases to - i,
    {
        if !byte_is_digit(bytes[i]) {
            assert(!is_digit(s[i - from]));
            return false;
        }
        i += 1;
    }
    assert(s[0] == bytes@[from as int]);
    true
}

fn range_is_identifier(bytes: &[u8], from: usize, to: usize, strict: bool) -> (r: bool)
    requires
        from <= to <= bytes.len(),
    ensures
        r == is_identifier(bytes@.subrange(from as int, to as int), strict),
{
    let ghost s = bytes@.subrange(from as int, to as int);
    if from == to {
        return false;
    }
    let mut digits = true;
    let mut i: usize = from;
    while i < to
        invariant
            from <= i <= to <= bytes.len(),
            s == bytes@.subrange(from as int, to as int),
            forall|j: int| 0 <= j < i - from ==> is_ident_byte(#[trigger] s[j]),
            digits == (forall|j: int| 0 <= j < i - from ==> is_digit(#[trigger] s[j])),
        decreases to - i,
    {
        let b = bytes[i];
        assert(b == s[i - from]);
        if !(byte_is_letter(b) || byte_is_digit(b) || b == HYPHEN) {
            return false;
        }
        if !byte_is_digit(b) {
            digits = false;
        }
        i += 1;
    }
    assert(s[0] == bytes@[from as int]);
    assert(digits == all_digits(s));
    !(strict && digits && to - from > 1 && bytes[from] == 0x30)
}

fn range_is_identifier_list(bytes: &[u8], from: usize, to: usize, strict: bool) -> (r: bool)
    requires
        from <= to <= bytes.len(),
    ensures
        r == is_identifier_list(bytes@.subrange(from as int, to as int), strict),
{
    let mut start: usize = from;
    loop
        invariant
            from <= start <= to <= bytes.len(),
            is_identifier_list(bytes@.subrange(from as int, to as int), strict)
                == is_identifier_list(bytes@.subrange(start as int, to as int), strict),
        decreases to - start,
    {
        let dot = find_byte(bytes, start, to, DOT);
        if !range_is_identifier(bytes, start, dot, strict) {
            return false;
        }
        if dot == to {
            return true;
        }
        start = dot + 1;
    }
}

/// Whether the text is a semantic version.
pub fn is_valid_version(version: &str) -> (r: bool)
    ensures
        r == is_semver(version.spec_bytes()),
{
    let bytes = version.as_bytes();
    let n = bytes.len();
    assert(bytes@.subrange(0, n as int) =~= bytes@);
    let plus = find_byte(bytes, 0, n, PLUS);
    let hyphen = find_byte(bytes, 0, plus, HYPHEN);
    let first = find_byte(bytes, 0, hyphen, DOT);
    if first == hyphen {
        return false;
    }
    let second = find_byte(bytes, first + 1, hyphen, DOT);
    if second == hyphen {
        return false;
    }
    range_is_numeric_id(bytes, 0, first) && range_is_numeric_id(bytes, first + 1, second)
        && range_is_numeric_id(bytes, second + 1, hyphen) && (hyphen == plus
        || range_is_identifier_list(bytes, hyphen + 1, plus, true)) && (plus == n
        || range_is_identifier_list(bytes, plus + 1, n, false))
}

/// Accepts a semantic version and refuses any other text as an invalid request.
pub fn validate_version(version: &str) -> (r: Result<(), ApiError>)
    ensures
        r is Ok <==> is_semver(version.spec_bytes()),
        r is Err ==> r->Err_0.is_detailed(ErrorKind::InvalidRequest, "invalid version number"@),
{
    if is_valid_version(version) {
        Ok(())
    } else {
        Err(specialize(error_invalid_request(), "invalid version number".to_owned()))
    }
}

} // verus!
