//! The versions of the database schema and the choice of the migrations that
//! a database still needs.

use vstd::prelude::*;
use vstd::string::*;
use crate::error::{error_internal, specialize, ApiError, ErrorKind};
use crate::names::{all_digits, is_digit};
use crate::text::{after, before, find_byte, DOT};

verus! {

/// A version of the database schema: major, minor and patch number.
#[derive(Clone, Copy, Debug, PartialEq, Eq, Structural)]
pub struct VersionNumber(pub u32, pub u32, pub u32);

impl VersionNumber {
    /// Whether this version is `other` or a later one.
    pub open spec fn is_at_least(self, other: VersionNumber) -> bool {
        self.0 > other.0 || (self.0 == other.0 && (self.1 > other.1 || (self.1 == other.1
            && self.2 >= other.2)))
    }

    /// Whether this version is `other` or a later one.
    pub fn at_least(&self, other: &VersionNumber) -> (r: bool)
        ensures
            r == self.is_at_least(*other),
    {
        self.0 > other.0 || (self.0 == other.0 && (self.1 > other.1 || (self.1 == other.1
            && self.2 >= other.2)))
    }
}

/// The number that decimal digits spell.
pub open spec fn decimal_value(digits: Seq<u8>) -> nat
    decreases digits.len(),
{
    if digits.len() == 0 {
        0
    } else {
        decimal_value(digits.drop_last()) * 10 + (digits.last() - 0x30) as nat
    }
}

/// A part of a version: decimal digits that spell a number of 32 bits.
pub open spec fn is_version_part(s: Seq<u8>) -> bool {
    s.len() > 0 && all_digits(s) && decimal_value(s) <= u32::MAX
}

/// The version that a text spells: three parts separated by dots.
pub open spec fn version_of(s: Seq<u8>) -> Option<VersionNumber> {
    let rest = after(s, DOT);
    if rest is Some && after(rest->0, DOT) is Some && is_version_part(before(s, DOT))
        && is_version_part(before(rest->0, DOT)) && is_version_part(after(rest->0, DOT)->0) {
        Some(
            VersionNumber(
                decimal_value(before(s, DOT)) as u32,
                decimal_value(before(rest->0, DOT)) as u32,
                decimal_value(after(rest->0, DOT)->0) as u32,
            ),
        )
    } else {
        None
    }
}

/// The number that digits spell is no smaller than the number that any
/// beginning of them spells.
pub proof fn lemma_decimal_monotone(digits: Seq<u8>, k: int)
    requires
        0 <= k <= digits.len(),
        all_digits(digits),
    ensures
        decimal_value(digits.subrange(0, k)) <= decimal_value(digits),
    decreases digits.len() - k,
{
    if k == digits.len() {
        assert(digits.subrange(0, k) =~= digits);
    } else {
        let shorter = digits.drop_last();
        assert(is_digit(digits.last()));
        assert forall|i: int| 0 <= i < shorter.len() implies is_digit(#[trigger] shorter[i]) by {
            assert(shorter[i] == digits[i]);
        }
        lemma_decimal_monotone(shorter, k);
        assert(shorter.subrange(0, k) =~= digits.subrange(0, k));
    }
}

fn parse_part(bytes: &[u8], from: usize, to: usize) -> (r: Option<u32>)
    requires
        from <= to <= bytes.len(),
    ensures
        r is Some <==> is_version_part(bytes@.subrange(from as int, to as int)),
        r is Some ==> r->0 == decimal_value(bytes@.subrange(from as int, to as int)),
{
    let ghost s = bytes@.subrange(from as int, to as int);
    if from == to {
        return None;
    }
    let mut value: u64 = 0;
    let mut i: usize = from;
    while i < to
        invariant
            from <= i <= to <= bytes.len(),
            s == bytes@.subrange(from as int, to as int),
            forall|j: int| 0 <= j < i - from ==> is_digit(#[trigger] s[j]),
            value == decimal_value(s.subrange(0, i - from)),
            value <= u32::MAX,
        decreases to - i,
    {
        let b = bytes[i];
        assert(b == s[i - from]);
        if !(0x30 <= b && b <= 0x39) {
            return None;
        }
        assert(s.subrange(0, i - from + 1).drop_last() =~= s.subrange(0, i - from));
        let next: u64 = value * 10 + (b - 0x30) as u64;
        if next > 0xffff_ffff {
            proof {
                if all_digits(s) {
                    lemma_decimal_monotone(s, i - from + 1);
                }
            }
            return None;
        }
        value = next;
        i += 1;
    }
    assert(s.subrange(0, to - from) =~= s);
    Some(value as u32)
}

/// Reads a version of the schema. A text that is not three numbers of 32
/// bits separated by dots is an internal error.
pub fn parse_version(text: &str) -> (r: Result<VersionNumber, ApiError>)
    ensures
        r is Ok <==> version_of(text.spec_bytes()) is Some,
        r is Ok ==> r->Ok_0 == version_of(text.spec_bytes())->0,
        r is Err ==> r->Err_0.is_detailed(ErrorKind::Internal, "invalid schema version"@),
{
    let bytes = text.as_bytes();
    let n = bytes.len();
    assert(bytes@.subrange(0, n as int) =~= bytes@);
    let first = find_byte(bytes, 0, n, DOT);
    if first < n {
        let second = find_byte(bytes, first + 1, n, DOT);
        if second < n {
            let major = parse_part(bytes, 0, first);
            let minor = parse_part(bytes, first + 1, second);
            let patch = parse_part(bytes, second + 1, n);
            match (major, minor, patch) {
                (Some(a), Some(b), Some(c)) => {
                    return Ok(VersionNumber(a, b, c));
                },
                _ => {},
            }
        }
    }
    Err(specialize(error_internal(), "invalid schema version".to_owned()))
}

/// The position of the first migration that a database at version `current`
/// still needs, among migrations whose targets are the first `n` of `targets`:
/// the position after the last of them that the database has reached, and 0
/// if it has reached none. The targets are read from the last one down, and a
/// target that cannot be read before the answer is found leaves no answer.
pub open spec fn start_among(current: VersionNumber, targets: Seq<&str>, n: int) -> Option<int>
    decreases n,
{
    if n <= 0 {
        Some(0)
    } else {
        match version_of(targets[n - 1].spec_bytes()) {
            None => None,
            Some(target) => if current.is_at_least(target) {
                Some(n)
            } else {
                start_among(current, targets, n - 1)
            },
        }
    }
}

/// The position of the first migration that a database still needs. A
/// database without a recorded version needs all of them.
pub open spec fn start_of(current: Option<&str>, targets: Seq<&str>) -> Option<int> {
    match current {
        None => Some(0),
        Some(text) => match version_of(text.spec_bytes()) {
            None => None,
            Some(version) => start_among(version, targets, targets.len() as int),
        },
    }
}

/// Chooses the migrations to run on a database whose recorded schema version
/// is `current`, given the targets of all migrations in their order: the
/// result is the position of the first one to run, and the number of
/// migrations if none is to run. A version that cannot be read is an internal
/// error.
pub fn migration_start(current: Option<&str>, targets: &[&str]) -> (r: Result<usize, ApiError>)
    ensures
        r is Ok <==> start_of(current, targets@) is Some,
        r is Ok ==> r->Ok_0 == start_of(current, targets@)->0 && r->Ok_0 <= targets@.len(),
        r is Err ==> r->Err_0.is_detailed(ErrorKind::Internal, "invalid schema version"@),
{
    let text = match current {
        None => {
            return Ok(0);
        },
        Some(text) => text,
    };
    let version = match parse_version(text) {
        Err(e) => {
            return Err(e);
        },
        Ok(version) => version,
    };
    let mut n: usize = targets.len();
    while n > 0
        invariant
            n <= targets@.len(),
            current == Some(text),
            version_of(text.spec_bytes()) == Some(version),
            start_among(version, targets@, targets@.len() as int) == start_among(
                version,
                targets@,
                n as int,
            ),
        decreases n,
    {
        match parse_version(targets[n - 1]) {
            Err(e) => {
                return Err(e);
            },
            Ok(target) => {
                if version.at_least(&target) {
                    return Ok(n);
                }
            },
        }
        n -= 1;
    }
    Ok(0)
}

} // verus!
