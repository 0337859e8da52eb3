//! Helpers on byte strings. Text is examined through the bytes of its UTF-8
//! encoding; every delimiter and keyword the registry looks for is ASCII, and
//! an ASCII byte never occurs inside the encoding of another character.

use vstd::prelude::*;
use vstd::string::*;

verus! {

/// The byte of `.`.
pub const DOT: u8 = 0x2e;

/// The byte of `/`.
pub const SLASH: u8 = 0x2f;

/// The byte of `-`.
pub const HYPHEN: u8 = 0x2d;

/// The byte of `_`.
pub const UNDERSCORE: u8 = 0x5f;

/// The byte of `:`.
pub const COLON: u8 = 0x3a;

/// The byte of `+`.
pub const PLUS: u8 = 0x2b;

/// The bytes of the UTF-8 encoding of a text.
pub open spec fn bytes_of(text: Seq<char>) -> Seq<u8> {
    vstd::utf8::encode_utf8(text)
}

/// The text whose characters are the given ASCII bytes.
pub open spec fn ascii_text(bytes: Seq<u8>) -> Seq<char> {
    Seq::new(bytes.len(), |i: int| bytes[i] as char)
}

/// Every byte is an ASCII character.
pub open spec fn is_ascii_bytes(bytes: Seq<u8>) -> bool {
    forall|i: int| 0 <= i < bytes.len() ==> #[trigger] bytes[i] < 0x80
}

/// The lower-case form of an ASCII letter; any other byte is unchanged.
pub open spec fn lower(b: u8) -> u8 {
    if 0x41 <= b <= 0x5a {
        (b + 0x20) as u8
    } else {
        b
    }
}

/// The text with every ASCII capital replaced by its small letter.
pub open spec fn lowercase(s: Seq<u8>) -> Seq<u8> {
    Seq::new(s.len(), |i: int| lower(s[i]))
}

/// Appends a character to a text. The body calls `String::push`, which
/// appends the character and changes nothing else.
#[verifier::external_body]
pub(crate) fn push_char(text: &mut String, c: char)
    ensures
        final(text)@ == old(text)@.push(c),
{
    text.push(c);
}

/// The lower-case form of a byte.
pub fn to_lower(b: u8) -> (r: u8)
    ensures
        r == lower(b),
{
    if 0x41 <= b && b <= 0x5a {
        b + 0x20
    } else {
        b
    }
}

/// The text that ASCII bytes spell.
pub fn ascii_string(bytes: &[u8]) -> (r: String)
    requires
        is_ascii_bytes(bytes@),
    ensures
        r@ == ascii_text(bytes@),
{
    let mut r = String::new();
    let mut i: usize = 0;
    while i < bytes.len()
        invariant
            i <= bytes.len(),
            is_ascii_bytes(bytes@),
            r@ == ascii_text(bytes@.subrange(0, i as int)),
        decreases bytes.len() - i,
    {
        push_char(&mut r, bytes[i] as char);
        assert(r@ =~= ascii_text(bytes@.subrange(0, i + 1)));
        i += 1;
    }
    assert(bytes@.subrange(0, bytes.len() as int) =~= bytes@);
    r
}

/// Whether the part of `bytes` from `from` up to `to` spells `word` when the
/// case of ASCII letters is ignored.
pub fn range_is_ignoring_case(bytes: &[u8], from: usize, to: usize, word: &str) -> (r: bool)
    requires
        from <= to <= bytes.len(),
    ensures
        r == (lowercase(bytes@.subrange(from as int, to as int)) == lowercase(word.spec_bytes())),
{
    let w = word.as_bytes();
    let ghost s = bytes@.subrange(from as int, to as int);
    if w.len() != to - from {
        assert(lowercase(s).len() != lowercase(w@).len());
        return false;
    }
    let mut i: usize = 0;
    while i < w.len()
        invariant
            from <= to <= bytes.len(),
            w.len() == to - from,
            i <= w.len(),
            w@ == word.spec_bytes(),
            s == bytes@.subrange(from as int, to as int),
            forall|j: int| 0 <= j < i ==> lower(s[j]) == lower(w@[j]),
        decreases w.len() - i,
    {
        if to_lower(bytes[from + i]) != to_lower(w[i]) {
            assert(lowercase(s)[i as int] != lowercase(w@)[i as int]);
            return false;
        }
        i += 1;
    }
    assert(lowercase(s) =~= lowercase(w@));
    true
}

/// A copy of a list of texts.
pub fn clone_strings(list: &Vec<String>) -> (r: Vec<String>)
    ensures
        r@ == list@,
{
    let mut r: Vec<String> = Vec::new();
    let mut i: usize = 0;
    while i < list.len()
        invariant
            i <= list.len(),
            r@ == list@.subrange(0, i as int),
        decreases list.len() - i,
    {
        r.push(list[i].clone());
        assert(r@ =~= list@.subrange(0, i + 1));
        i += 1;
    }
    assert(list@.subrange(0, list.len() as int) =~= list@);
    r
}

/// A copy of a text that may be absent.
pub fn clone_optional(text: &Option<String>) -> (r: Option<String>)
    ensures
        r == *text,
{
    match text {
        Some(t) => Some(t.clone()),
        None => None,
    }
}

/// Index of the last occurrence of `b` in `s`, or -1 when there is none.
pub open spec fn last_position(s: Seq<u8>, b: u8) -> int
    decreases s.len(),
{
    if s.len() == 0 {
        -1
    } else if s.last() == b {
        s.len() - 1
    } else {
        last_position(s.drop_last(), b)
    }
}

/// Index of the first occurrence of `b` in `s`, or `s.len()` when there is none.
pub open spec fn first_position(s: Seq<u8>, b: u8) -> int
    decreases s.len(),
{
    if s.len() == 0 {
        0
    } else if s[0] == b {
        0
    } else {
        1 + first_position(s.drop_first(), b)
    }
}

/// Whether `s` begins with `prefix`.
pub open spec fn has_prefix(s: Seq<u8>, prefix: Seq<u8>) -> bool {
    prefix.len() <= s.len() && s.subrange(0, prefix.len() as int) == prefix
}

/// The last occurrence of a byte lies in the text, holds the byte, and no
/// later position holds it.
pub proof fn lemma_last_position_bounds(s: Seq<u8>, b: u8)
    ensures
        -1 <= last_position(s, b) < s.len(),
        last_position(s, b) >= 0 ==> s[last_position(s, b)] == b,
        forall|j: int| last_position(s, b) < j < s.len() ==> s[j] != b,
    decreases s.len(),
{
    if s.len() > 0 && s.last() != b {
        let t = s.drop_last();
        lemma_last_position_bounds(t, b);
        assert forall|j: int| last_position(s, b) < j < s.len() implies s[j] != b by {
            if j < t.len() {
                assert(s[j] == t[j]);
            }
        }
    }
}

/// The position at which a byte is found first is the only one that has the
/// byte and none before it.
pub proof fn lemma_first_position_is(s: Seq<u8>, b: u8, p: int)
    requires
        0 <= p <= s.len(),
        forall|j: int| 0 <= j < p ==> s[j] != b,
        p < s.len() ==> s[p] == b,
    ensures
        first_position(s, b) == p,
    decreases s.len(),
{
    if s.len() > 0 && s[0] != b {
        let t = s.drop_first();
        assert forall|j: int| 0 <= j < p - 1 implies t[j] != b by {
            assert(t[j] == s[j + 1]);
        }
        lemma_first_position_is(t, b, p - 1);
    }
}

/// The text before the first occurrence of `b`: all of `s` when there is none.
pub open spec fn before(s: Seq<u8>, b: u8) -> Seq<u8> {
    let p = first_position(s, b);
    if 0 <= p < s.len() {
        s.subrange(0, p)
    } else {
        s
    }
}

/// The text after the first occurrence of `b`, if there is one.
pub open spec fn after(s: Seq<u8>, b: u8) -> Option<Seq<u8>> {
    let p = first_position(s, b);
    if 0 <= p < s.len() {
        Some(s.subrange(p + 1, s.len() as int))
    } else {
        None
    }
}

/// Finds the first occurrence of a byte between two positions; the result is
/// `to` when there is none.
pub fn find_byte(bytes: &[u8], from: usize, to: usize, b: u8) -> (r: usize)
    requires
        from <= to <= bytes.len(),
    ensures
        from <= r <= to,
        r < to ==> bytes@[r as int] == b,
        r - from == first_position(bytes@.subrange(from as int, to as int), b),
        r < to ==> before(bytes@.subrange(from as int, to as int), b) == bytes@.subrange(
            from as int,
            r as int,
        ) && after(bytes@.subrange(from as int, to as int), b) == Some(
            bytes@.subrange(r + 1, to as int),
        ),
        r == to ==> before(bytes@.subrange(from as int, to as int), b) == bytes@.subrange(
            from as int,
            to as int,
        ) && after(bytes@.subrange(from as int, to as int), b) is None,
{
    let mut i: usize = from;
    while i < to && bytes[i] != b
        invariant
            from <= i <= to <= bytes.len(),
            forall|j: int| from <= j < i ==> bytes@[j] != b,
        decreases to - i,
    {
        i += 1;
    }
    proof {
        let s = bytes@.subrange(from as int, to as int);
        lemma_first_position_is(s, b, i - from);
        if i < to {
            assert(s.subrange(0, i - from) =~= bytes@.subrange(from as int, i as int));
            assert(s.subrange(i - from + 1, s.len() as int) =~= bytes@.subrange(i + 1, to as int));
        }
    }
    i
}

/// Finds the last occurrence of a byte.
pub fn rfind_byte(bytes: &[u8], b: u8) -> (r: Option<usize>)
    ensures
        match r {
            Some(i) => i as int == last_position(bytes@, b),
            None => last_position(bytes@, b) == -1,
        },
{
    let mut i: usize = bytes.len();
    assert(bytes@.subrange(0, i as int) =~= bytes@);
    while i > 0
        invariant
            i <= bytes.len(),
            last_position(bytes@, b) == last_position(bytes@.subrange(0, i as int), b),
        decreases i,
    {
        if bytes[i - 1] == b {
            return Some(i - 1);
        }
        assert(bytes@.subrange(0, i as int).drop_last() =~= bytes@.subrange(0, i - 1));
        i -= 1;
    }
    None
}

/// Whether the part of `bytes` from `from` up to `to` spells `word`.
pub fn range_is(bytes: &[u8], from: usize, to: usize, word: &str) -> (r: bool)
    requires
        from <= to <= bytes.len(),
    ensures
        r == (bytes@.subrange(from as int, to as int) == word.spec_bytes()),
{
    let w = word.as_bytes();
    if w.len() != to - from {
        return false;
    }
    let mut i: usize = 0;
    while i < w.len()
        invariant
            from <= to <= bytes.len(),
            w.len() == to - from,
            i <= w.len(),
            w@ == word.spec_bytes(),
            forall|j: int| 0 <= j < i ==> bytes@[from + j] == w@[j],
        decreases w.len() - i,
    {
        if bytes[from + i] != w[i] {
            assert(bytes@.subrange(from as int, to as int)[i as int] != w@[i as int]);
            return false;
        }
        i += 1;
    }
    assert(bytes@.subrange(from as int, to as int) =~= w@);
    true
}

/// Whether `bytes` spells `word`.
pub fn bytes_are(bytes: &[u8], word: &str) -> (r: bool)
    ensures
        r == (bytes@ == word.spec_bytes()),
{
    assert(bytes@.subrange(0, bytes@.len() as int) =~= bytes@);
    range_is(bytes, 0, bytes.len(), word)
}

/// The text that bytes encode in UTF-8.
pub open spec fn text_of(bytes: Seq<u8>) -> Seq<char> {
    vstd::utf8::decode_utf8(bytes)
}

/// In the encoding of a text, a position that only ASCII bytes precede is
/// the boundary of a character.
pub proof fn lemma_boundary_after_ascii(text: Seq<char>, n: int)
    requires
        0 <= n <= bytes_of(text).len(),
        forall|i: int| 0 <= i < n ==> #[trigger] bytes_of(text)[i] < 0x80,
    ensures
        vstd::utf8::is_char_boundary(bytes_of(text), n),
{
    let bytes = bytes_of(text);
    vstd::utf8::encode_utf8_valid_utf8(text);
    vstd::utf8::is_char_boundary_start_end_of_seq(bytes);
    if 0 < n < bytes.len() {
        assert(bytes.subrange(0, 0) =~= Seq::<u8>::empty());
        assert(vstd::utf8::partial_valid_utf8(bytes, 0));
        assert forall|i: int| 0 <= 0 <= i < n <= bytes.len() implies #[trigger]
            vstd::utf8::is_leading_byte_width_1(bytes[i]) by {
            assert(bytes[i] < 0x80);
        }
        vstd::utf8::partial_valid_utf8_extend_ascii_block(bytes, 0, n);
        let rest = bytes.subrange(n, bytes.len() as int);
        if !vstd::utf8::valid_utf8(rest) {
            vstd::utf8::partial_valid_partial_invalid_utf8(bytes, n);
        }
        assert(vstd::utf8::valid_first_scalar(rest));
        assert(rest[0] == bytes[n]);
        assert(!vstd::utf8::is_continuation_byte(bytes[n]));
        vstd::utf8::is_char_boundary_iff_not_is_continuation_byte(bytes, n);
    }
}

/// The rest of a text after a beginning that it has.
pub fn strip_known_prefix<'a>(text: &'a str, prefix: &str) -> (r: &'a str)
    requires
        has_prefix(text.spec_bytes(), prefix.spec_bytes()),
        is_ascii_bytes(prefix.spec_bytes()),
    ensures
        r.spec_bytes() == text.spec_bytes().subrange(
            prefix.spec_bytes().len() as int,
            text.spec_bytes().len() as int,
        ),
        r@ == text_of(r.spec_bytes()),
{
    let n = prefix.as_bytes().len();
    proof {
        let bytes = text.spec_bytes();
        assert forall|i: int| 0 <= i < n implies #[trigger] bytes[i] < 0x80 by {
            assert(bytes.subrange(0, n as int)[i] == prefix.spec_bytes()[i]);
        }
        lemma_boundary_after_ascii(text@, n as int);
    }
    let parts = text.split_at(n);
    let rest = parts.1;
    proof {
        vstd::utf8::encode_utf8_decode_utf8(rest@);
        assert(rest.spec_bytes() =~= text.spec_bytes().subrange(
            n as int,
            text.spec_bytes().len() as int,
        ));
    }
    rest
}

/// The two parts of a text around the first occurrence of an ASCII byte: what
/// stands before it and what stands after it. A text without the byte has no
/// such parts.
pub fn split_once<'a>(text: &'a str, separator: u8) -> (r: Option<(&'a str, &'a str)>)
    requires
        separator < 0x80,
    ensures
        r is Some <==> after(text.spec_bytes(), separator) is Some,
        r is Some ==> {
            let (head, rest) = r->0;
            &&& head.spec_bytes() == before(text.spec_bytes(), separator)
            &&& rest.spec_bytes() == after(text.spec_bytes(), separator)->0
            &&& head@ == text_of(head.spec_bytes())
            &&& rest@ == text_of(rest.spec_bytes())
        },
{
    let bytes = text.as_bytes();
    let n = bytes.len();
    assert(bytes@.subrange(0, n as int) =~= bytes@);
    let at = find_byte(bytes, 0, n, separator);
    if at == n {
        return None;
    }
    proof {
        vstd::utf8::encode_utf8_valid_utf8(text@);
        assert(!vstd::utf8::is_continuation_byte(bytes@[at as int]));
        vstd::utf8::is_char_boundary_iff_not_is_continuation_byte(text.spec_bytes(), at as int);
    }
    let parts = text.split_at(at);
    let head = parts.0;
    let tail = parts.1;
    proof {
        assert(tail.spec_bytes() =~= bytes@.subrange(at as int, n as int));
        assert(tail.spec_bytes()[0] == bytes@[at as int]);
        assert forall|i: int| 0 <= i < 1 implies #[trigger] bytes_of(tail@)[i] < 0x80 by {
            assert(bytes_of(tail@)[0] == separator);
        }
        lemma_boundary_after_ascii(tail@, 1);
    }
    let rest = tail.split_at(1).1;
    proof {
        vstd::utf8::encode_utf8_decode_utf8(head@);
        vstd::utf8::encode_utf8_decode_utf8(rest@);
        assert(head.spec_bytes() =~= bytes@.subrange(0, at as int));
        assert(rest.spec_bytes() =~= bytes@.subrange(at + 1, n as int));
    }
    Some((head, rest))
}

/// The rest of a text after a beginning, if the text has that beginning.
pub fn strip_prefix<'a>(text: &'a str, prefix: &str) -> (r: Option<&'a str>)
    requires
        is_ascii_bytes(prefix.spec_bytes()),
    ensures
        r is Some <==> has_prefix(text.spec_bytes(), prefix.spec_bytes()),
        r is Some ==> r->0.spec_bytes() == text.spec_bytes().subrange(
            prefix.spec_bytes().len() as int,
            text.spec_bytes().len() as int,
        ) && r->0@ == text_of(r->0.spec_bytes()),
{
    if starts_with(text.as_bytes(), prefix) {
        Some(strip_known_prefix(text, prefix))
    } else {
        None
    }
}

/// The bytes of a text of ASCII characters are ASCII bytes.
pub proof fn lemma_ascii_text_has_ascii_bytes(text: &str)
    requires
        is_ascii(text),
    ensures
        is_ascii_bytes(text.spec_bytes()),
        text.spec_bytes().len() == text@.len(),
{
    is_ascii_spec_bytes(text);
    assert forall|i: int| 0 <= i < text.spec_bytes().len() implies #[trigger] text.spec_bytes()[i]
        < 0x80 by {
        assert('\0' <= text@[i] <= '\u{7f}');
    }
}

/// Whether two texts are the same.
pub fn same_text(a: &str, b: &str) -> (r: bool)
    ensures
        r == (a@ == b@),
{
    let r = bytes_are(a.as_bytes(), b);
    proof {
        if a.spec_bytes() == b.spec_bytes() {
            vstd::utf8::encode_utf8_decode_utf8(a@);
            vstd::utf8::encode_utf8_decode_utf8(b@);
        }
    }
    r
}

/// Whether two texts are the same when the case of ASCII letters is ignored.
pub fn same_text_ignoring_case(a: &str, b: &str) -> (r: bool)
    ensures
        r == (lowercase(a.spec_bytes()) == lowercase(b.spec_bytes())),
{
    let bytes = a.as_bytes();
    assert(bytes@.subrange(0, bytes@.len() as int) =~= bytes@);
    range_is_ignoring_case(bytes, 0, bytes.len(), b)
}

/// Whether `bytes` begins with `word`.
pub fn starts_with(bytes: &[u8], word: &str) -> (r: bool)
    ensures
        r == has_prefix(bytes@, word.spec_bytes()),
{
    let n = word.as_bytes().len();
    if n > bytes.len() {
        return false;
    }
    range_is(bytes, 0, n, word)
}

} // verus!
