//! The layout of the index: where the file of a package lies, what a commit
//! says, and with which media type a file of the index is served.

use vstd::prelude::*;
use vstd::string::*;
use crate::error::{
    error_already_exists, error_internal, error_invalid_request, error_not_found, specialize,
    ApiError, ErrorKind,
};
use crate::metadata::Outcome;
use crate::names::{is_name_byte, is_package_name, is_package_name_bytes, is_valid_package_name};
use crate::text::{
    ascii_string, ascii_text, bytes_are, has_prefix, is_ascii_bytes, last_position,
    lemma_ascii_text_has_ascii_bytes, lemma_last_position_bounds, lowercase,
    range_is_ignoring_case, rfind_byte, same_text, starts_with, to_lower, DOT, SLASH,
};
use crate::upload::IndexEntry;

verus! {

/// The directory of the index that holds the file of a package: `1` and `2`
/// for names of one and two letters, `3/a` for a name of three letters that
/// begins with `a`, and `ab/cd` for a longer name that begins with `abcd`.
/// Capitals count as their small letters.
pub open spec fn shard_of(name: Seq<u8>) -> Seq<u8> {
    let low = lowercase(name);
    if name.len() == 1 {
        seq![0x31u8]
    } else if name.len() == 2 {
        seq![0x32u8]
    } else if name.len() == 3 {
        seq![0x33u8, SLASH, low[0]]
    } else {
        seq![low[0], low[1], SLASH, low[2], low[3]]
    }
}

/// The path of the file of a package, from the root of the index: its
/// directory, a slash, and its name in small letters.
pub open spec fn index_path_of(name: Seq<u8>) -> Seq<u8> {
    shard_of(name) + seq![SLASH] + lowercase(name)
}

/// The path of the file of a package, as bytes.
pub fn index_path_bytes(name: &[u8]) -> (r: Vec<u8>)
    requires
        name@.len() >= 1,
    ensures
        r@ == index_path_of(name@),
{
    let n = name.len();
    let mut r: Vec<u8> = Vec::new();
    if n == 1 {
        r.push(0x31u8);
    } else if n == 2 {
        r.push(0x32u8);
    } else if n == 3 {
        r.push(0x33u8);
        r.push(SLASH);
        r.push(to_lower(name[0]));
    } else {
        r.push(to_lower(name[0]));
        r.push(to_lower(name[1]));
        r.push(SLASH);
        r.push(to_lower(name[2]));
        r.push(to_lower(name[3]));
    }
    assert(r@ =~= shard_of(name@));
    r.push(SLASH);
    let ghost head = r@;
    let mut i: usize = 0;
    while i < n
        invariant
            i <= n,
            n == name.len(),
            r@ == head + lowercase(name@).subrange(0, i as int),
        decreases n - i,
    {
        r.push(to_lower(name[i]));
        assert(r@ =~= head + lowercase(name@).subrange(0, i + 1));
        i += 1;
    }
    assert(lowercase(name@).subrange(0, n as int) =~= lowercase(name@));
    assert(head =~= shard_of(name@) + seq![SLASH]);
    r
}

/// The path of a package name is made of ASCII characters.
pub proof fn lemma_index_path_is_ascii(name: Seq<u8>)
    requires
        is_package_name(name),
    ensures
        is_ascii_bytes(index_path_of(name)),
{
    let low = lowercase(name);
    assert forall|i: int| 0 <= i < low.len() implies #[trigger] low[i] < 0x80 by {
        assert(is_name_byte(name[i]));
    }
    let path = index_path_of(name);
    let shard = shard_of(name);
    assert forall|i: int| 0 <= i < path.len() implies #[trigger] path[i] < 0x80 by {
        if i < shard.len() {
            assert(path[i] == shard[i]);
            assert(low[0] < 0x80);
            if name.len() >= 4 {
                assert(low[1] < 0x80 && low[2] < 0x80 && low[3] < 0x80);
            }
        } else if i > shard.len() {
            assert(path[i] == low[i - shard.len() - 1]);
        }
    }
}

/// The path of the file of a package, from the root of the index.
pub fn index_file_path(name: &str) -> (r: String)
    requires
        is_package_name(name.spec_bytes()),
    ensures
        r@ == ascii_text(index_path_of(name.spec_bytes())),
{
    let bytes = index_path_bytes(name.as_bytes());
    proof {
        lemma_index_path_is_ascii(name.spec_bytes());
    }
    ascii_string(bytes.as_slice())
}

/// The path of the file of a package, for any text: a text that is no package
/// name has no file and is refused as an invalid request.
pub fn find_index_file(name: &str) -> (r: Result<String, ApiError>)
    ensures
        r is Ok <==> is_package_name(name.spec_bytes()),
        r is Ok ==> r->Ok_0@ == ascii_text(index_path_of(name.spec_bytes())),
        r is Err ==> r->Err_0.is_detailed(ErrorKind::InvalidRequest, "invalid package name"@),
{
    if is_valid_package_name(name) {
        Ok(index_file_path(name))
    } else {
        Err(specialize(error_invalid_request(), "invalid package name".to_owned()))
    }
}

/// The message of the commit that records a publication.
pub fn publish_message(name: &str, version: &str) -> (r: String)
    ensures
        r@ == "publish "@ + name@ + " "@ + version@,
{
    let mut r = "publish ".to_owned();
    r.append(name);
    r.append(" ");
    r.append(version);
    r
}

/// The message of the commit that records a withdrawal.
pub fn yank_message(name: &str, version: &str) -> (r: String)
    ensures
        r@ == "yank "@ + name@ + " "@ + version@,
{
    let mut r = "yank ".to_owned();
    r.append(name);
    r.append(" ");
    r.append(version);
    r
}

/// The message of the commit that records the return of a withdrawn version.
pub fn unyank_message(name: &str, version: &str) -> (r: String)
    ensures
        r@ == "unyank "@ + name@ + " "@ + version@,
{
    let mut r = "unyank ".to_owned();
    r.append(name);
    r.append(" ");
    r.append(version);
    r
}

/// The lines of the file of a package after a line is appended: nothing if a
/// line of that version is there already, else the lines so far and the new
/// one after them.
pub open spec fn appended(lines: Seq<IndexEntry>, entry: IndexEntry) -> Option<Seq<IndexEntry>> {
    if has_line(lines, entry.vers@) {
        None
    } else {
        Some(lines.push(entry))
    }
}

/// Whether the lines hold one of the given version.
pub open spec fn has_line(lines: Seq<IndexEntry>, version: Seq<char>) -> bool {
    exists|i: int| 0 <= i < lines.len() && (#[trigger] lines[i]).vers@ == version
}

/// No two lines are of the same version.
pub open spec fn lines_are_distinct(lines: Seq<IndexEntry>) -> bool {
    forall|i: int, j: int|
        0 <= i < j < lines.len() ==> (#[trigger] lines[i]).vers@ != (#[trigger] lines[j]).vers@
}

/// A line with its flag set as asked and nothing else changed.
pub open spec fn with_flag(line: IndexEntry, yanked: bool) -> IndexEntry {
    IndexEntry { yanked, ..line }
}

/// The file of a package in the index: one line for each version, in the
/// order of publication.
#[derive(Clone, Debug)]
pub struct IndexFile {
    /// The lines.
    pub entries: Vec<IndexEntry>,
}

impl IndexFile {
    /// The file is sound: no two lines are of the same version.
    pub open spec fn wf(self) -> bool {
        lines_are_distinct(self.entries@)
    }

    /// The file of a package of which nothing was published.
    pub fn new() -> (file: IndexFile)
        ensures
            file.wf(),
            file.entries@.len() == 0,
    {
        IndexFile { entries: Vec::new() }
    }

    /// Whether the file is sound, for files that come from outside.
    pub fn is_sound(&self) -> (r: bool)
        ensures
            r == self.wf(),
    {
        let mut k: usize = 0;
        while k < self.entries.len()
            invariant
                k <= self.entries@.len(),
                forall|a: int, b: int|
                    0 <= a < b < k ==> (#[trigger] self.entries@[a]).vers@ != (
                    #[trigger] self.entries@[b]).vers@,
            decreases self.entries@.len() - k,
        {
            let mut j: usize = 0;
            while j < k
                invariant
                    j <= k < self.entries@.len(),
                    forall|a: int|
                        0 <= a < j ==> (#[trigger] self.entries@[a]).vers@ != self.entries@[k as int].vers@,
                decreases k - j,
            {
                if same_text(
                    self.entries[j].vers.as_str(),
                    self.entries[k].vers.as_str(),
                ) {
                    return false;
                }
                j += 1;
            }
            k += 1;
        }
        true
    }

    /// The position of the line of a version.
    pub fn find(&self, version: &str) -> (r: Option<usize>)
        ensures
            r is Some <==> has_line(self.entries@, version@),
            r is Some ==> r->0 < self.entries@.len() && self.entries@[r->0 as int].vers@
                == version@,
    {
        let mut i: usize = 0;
        while i < self.entries.len()
            invariant
                i <= self.entries@.len(),
                forall|j: int| 0 <= j < i ==> (#[trigger] self.entries@[j]).vers@ != version@,
            decreases self.entries@.len() - i,
        {
            if same_text(self.entries[i].vers.as_str(), version) {
                return Some(i);
            }
            i += 1;
        }
        None
    }

    /// Appends the line of a new version. A version that has a line already
    /// exists, and the file stays as it is.
    pub fn append(&mut self, entry: IndexEntry) -> (r: Result<(), ApiError>)
        requires
            old(self).wf(),
        ensures
            final(self).wf(),
            match appended(old(self).entries@, entry) {
                Some(lines) => r is Ok && final(self).entries@ == lines,
                None => r is Err && r->Err_0.is_plain(ErrorKind::AlreadyExists) && *final(self)
                    == *old(self),
            },
    {
        if self.find(entry.vers.as_str()).is_some() {
            return Err(error_already_exists());
        }
        self.entries.push(entry);
        Ok(())
    }

    /// Sets the flag of the line of a version, and says whether it changed.
    /// A version without a line is not found. No other line changes, and of
    /// that line only the flag.
    pub fn set_yanked(&mut self, version: &str, yanked: bool) -> (r: Result<Outcome, ApiError>)
        requires
            old(self).wf(),
        ensures
            final(self).wf(),
            r is Ok <==> has_line(old(self).entries@, version@),
            final(self).entries@.len() == old(self).entries@.len(),
            forall|i: int|
                0 <= i < old(self).entries@.len() ==> #[trigger] final(self).entries@[i] == (if old(
                    self,
                ).entries@[i].vers@ == version@ {
                    with_flag(old(self).entries@[i], yanked)
                } else {
                    old(self).entries@[i]
                }),
            r is Ok ==> exists|i: int|
                0 <= i < old(self).entries@.len() && (#[trigger] old(self).entries@[i]).vers@
                    == version@ && r->Ok_0 == (if old(self).entries@[i].yanked == yanked {
                    Outcome::Unchanged
                } else {
                    Outcome::Changed
                }),
            r is Err ==> r->Err_0.is_plain(ErrorKind::NotFound),
    {
        match self.find(version) {
            None => Err(error_not_found()),
            Some(i) => {
                let outcome = if self.entries[i].yanked == yanked {
                    Outcome::Unchanged
                } else {
                    Outcome::Changed
                };
                self.entries[i].yanked = yanked;
                assert(old(self).entries@[i as int].vers@ == version@);
                Ok(outcome)
            },
        }
    }
}

/// A version that was appended has a line, so that appending it again is
/// refused; and the file has gained exactly that one line, after the others.
pub proof fn lemma_append_once(lines: Seq<IndexEntry>, entry: IndexEntry, again: IndexEntry)
    requires
        appended(lines, entry) is Some,
        again.vers@ == entry.vers@,
    ensures
        appended(lines, entry)->0.len() == lines.len() + 1,
        appended(lines, entry)->0.subrange(0, lines.len() as int) == lines,
        appended(lines, entry)->0.last() == entry,
        appended(appended(lines, entry)->0, again) is None,
{
    let after = lines.push(entry);
    assert(after.subrange(0, lines.len() as int) =~= lines);
    assert(after[lines.len() as int].vers@ == again.vers@);
}

/// Lines of versions that differ can be appended one after the other in any
/// order, and each adds one line.
pub proof fn lemma_append_distinct(lines: Seq<IndexEntry>, first: IndexEntry, second: IndexEntry)
    requires
        appended(lines, first) is Some,
        appended(lines, second) is Some,
        first.vers@ != second.vers@,
    ensures
        appended(appended(lines, first)->0, second) is Some,
        appended(appended(lines, second)->0, first) is Some,
        appended(appended(lines, first)->0, second)->0.len() == lines.len() + 2,
{
    let a = lines.push(first);
    if has_line(a, second.vers@) {
        let i = choose|i: int| 0 <= i < a.len() && (#[trigger] a[i]).vers@ == second.vers@;
        if i < lines.len() {
            assert(lines[i].vers@ == second.vers@);
        }
    }
    let b = lines.push(second);
    if has_line(b, first.vers@) {
        let i = choose|i: int| 0 <= i < b.len() && (#[trigger] b[i]).vers@ == first.vers@;
        if i < lines.len() {
            assert(lines[i].vers@ == first.vers@);
        }
    }
}

/// The longest payload of one packet line of the Git protocol.
pub const MAX_PKT_PAYLOAD: usize = 65516;

/// The byte of the hexadecimal digit of a number below sixteen, with small
/// letters.
pub open spec fn hex_byte(d: int) -> u8 {
    if d < 10 {
        (0x30 + d) as u8
    } else {
        (0x61 - 10 + d) as u8
    }
}

/// A packet line of the Git protocol: the length of the line, its own four
/// bytes included, as four hexadecimal digits, and then the payload.
pub open spec fn pkt_line_of(payload: Seq<u8>) -> Seq<u8> {
    let n = payload.len() as int + 4;
    seq![hex_byte(n / 4096), hex_byte(n / 256 % 16), hex_byte(n / 16 % 16), hex_byte(n % 16)]
        + payload
}

fn hex_digit_byte(d: usize) -> (b: u8)
    requires
        d < 16,
    ensures
        b == hex_byte(d as int),
{
    if d < 10 {
        0x30 + d as u8
    } else {
        0x61 - 10 + d as u8
    }
}

/// Frames a payload as a packet line. A payload that is too long for one
/// line is an internal error.
pub fn pkt_line(payload: &[u8]) -> (r: Result<Vec<u8>, ApiError>)
    ensures
        r is Ok <==> payload@.len() <= MAX_PKT_PAYLOAD,
        r is Ok ==> r->Ok_0@ == pkt_line_of(payload@),
        r is Err ==> r->Err_0.is_plain(ErrorKind::Internal),
{
    if payload.len() > MAX_PKT_PAYLOAD {
        return Err(error_internal());
    }
    let n = payload.len() + 4;
    let mut line: Vec<u8> = Vec::new();
    line.push(hex_digit_byte(n / 4096));
    line.push(hex_digit_byte(n / 256 % 16));
    line.push(hex_digit_byte(n / 16 % 16));
    line.push(hex_digit_byte(n % 16));
    let ghost head = line@;
    let mut i: usize = 0;
    while i < payload.len()
        invariant
            i <= payload.len(),
            line@ == head + payload@.subrange(0, i as int),
        decreases payload.len() - i,
    {
        line.push(payload[i]);
        assert(line@ =~= head + payload@.subrange(0, i + 1));
        i += 1;
    }
    assert(payload@.subrange(0, payload.len() as int) =~= payload@);
    Ok(line)
}

/// What opens the advertisement of the references over HTTP: a packet line
/// that names the service, and a flush packet. The references follow it.
pub fn upload_pack_advertisement(references: &[u8]) -> (r: Vec<u8>)
    ensures
        r@ == pkt_line_of("# service=git-upload-pack\n".spec_bytes()) + "0000".spec_bytes()
            + references@,
{
    proof {
        reveal_strlit("# service=git-upload-pack\n");
        lemma_ascii_text_has_ascii_bytes("# service=git-upload-pack\n");
    }
    let mut r = match pkt_line("# service=git-upload-pack\n".as_bytes()) {
        Ok(line) => line,
        Err(_) => Vec::new(),
    };
    let flush = "0000".as_bytes();
    let ghost service = r@;
    let mut i: usize = 0;
    while i < flush.len()
        invariant
            i <= flush.len(),
            r@ == service + flush@.subrange(0, i as int),
        decreases flush.len() - i,
    {
        r.push(flush[i]);
        assert(r@ =~= service + flush@.subrange(0, i + 1));
        i += 1;
    }
    assert(flush@.subrange(0, flush.len() as int) =~= flush@);
    let ghost opened = r@;
    let mut k: usize = 0;
    while k < references.len()
        invariant
            k <= references.len(),
            r@ == opened + references@.subrange(0, k as int),
        decreases references.len() - k,
    {
        r.push(references[k]);
        assert(r@ =~= opened + references@.subrange(0, k + 1));
        k += 1;
    }
    assert(references@.subrange(0, references.len() as int) =~= references@);
    r
}

/// The last component of a path: what follows its last slash, or all of it.
pub open spec fn file_name_of(path: Seq<u8>) -> Seq<u8> {
    path.subrange(last_position(path, SLASH) + 1, path.len() as int)
}

/// Whether the last component of a path ends in `.json`, in any case. A name
/// that only begins with a dot has no extension.
pub open spec fn has_json_extension(path: Seq<u8>) -> bool {
    let name = file_name_of(path);
    let dot = last_position(name, DOT);
    dot > 0 && lowercase(name.subrange(dot + 1, name.len() as int)) == lowercase(
        "json".spec_bytes(),
    )
}

/// Whether a request path is that of the file of a package: a slash, and then
/// the path that the index gives to the last component of the request path.
pub open spec fn is_package_file(path: Seq<u8>) -> bool {
    let name = file_name_of(path);
    &&& path.len() > 0
    &&& path[0] == SLASH
    &&& is_package_name(name)
    &&& path.subrange(1, path.len() as int) == index_path_of(name)
}

/// The media type with which the sparse protocol serves a path of the index.
pub open spec fn index_media_type_of(path: Seq<u8>) -> Seq<char> {
    if has_json_extension(path) || is_package_file(path) {
        "application/json"@
    } else if path == "/HEAD".spec_bytes() || has_prefix(path, "/info".spec_bytes()) {
        "text/plain; charset=utf-8"@
    } else {
        "application/octet-stream"@
    }
}

fn path_has_json_extension(bytes: &[u8], name_start: usize) -> (r: bool)
    requires
        name_start <= bytes.len(),
        name_start == last_position(bytes@, SLASH) + 1,
    ensures
        r == has_json_extension(bytes@),
{
    let n = bytes.len();
    let name = vstd::slice::slice_subrange(bytes, name_start, n);
    match rfind_byte(name, DOT) {
        None => false,
        Some(dot) => {
            proof {
                lemma_last_position_bounds(name@, DOT);
            }
            dot > 0 && range_is_ignoring_case(name, dot + 1, name.len(), "json")
        },
    }
}

fn path_is_package_file(bytes: &[u8], name_start: usize) -> (r: bool)
    requires
        name_start <= bytes.len(),
        name_start == last_position(bytes@, SLASH) + 1,
    ensures
        r == is_package_file(bytes@),
{
    let n = bytes.len();
    if n == 0 || bytes[0] != SLASH {
        return false;
    }
    let name = vstd::slice::slice_subrange(bytes, name_start, n);
    if !is_package_name_bytes(name) {
        return false;
    }
    let expected = index_path_bytes(name);
    if expected.len() != n - 1 {
        return false;
    }
    let mut i: usize = 0;
    while i < n - 1
        invariant
            i <= n - 1,
            n == bytes.len(),
            expected@.len() == n - 1,
            expected@ == index_path_of(file_name_of(bytes@)),
            bytes@[0] == SLASH,
            is_package_name(file_name_of(bytes@)),
            forall|j: int| 0 <= j < i ==> bytes@[j + 1] == expected@[j],
        decreases n - 1 - i,
    {
        if bytes[i + 1] != expected[i] {
            assert(bytes@.subrange(1, n as int)[i as int] != expected@[i as int]);
            return false;
        }
        i += 1;
    }
    assert(bytes@.subrange(1, n as int) =~= expected@);
    true
}

/// The media type with which the sparse protocol serves a path of the index:
/// JSON for the configuration and for the files of packages, plain text for
/// `/HEAD` and what lies under `/info`, opaque bytes for the rest.
pub fn index_content_type(path: &str) -> (r: &'static str)
    ensures
        r@ == index_media_type_of(path.spec_bytes()),
{
    let bytes = path.as_bytes();
    proof {
        lemma_last_position_bounds(bytes@, SLASH);
    }
    let name_start: usize = match rfind_byte(bytes, SLASH) {
        Some(slash) => slash + 1,
        None => 0,
    };
    if path_has_json_extension(bytes, name_start) || path_is_package_file(bytes, name_start) {
        "application/json"
    } else if bytes_are(bytes, "/HEAD") || starts_with(bytes, "/info") {
        "text/plain; charset=utf-8"
    } else {
        "application/octet-stream"
    }
}

} // verus!
