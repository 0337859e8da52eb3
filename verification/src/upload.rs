//! The archive that a client uploads to publish a version, and the manifest
//! that it carries.

use sha2::Digest;
use vstd::prelude::*;
use vstd::slice::slice_subrange;
use vstd::string::*;
use crate::error::{error_invalid_request, specialize, ApiError, ErrorKind};
use crate::names::{
    is_feature_name, is_package_name, is_semver, is_valid_feature_name, is_valid_package_name,
    is_valid_version,
};
use crate::text::{bytes_of, clone_optional, clone_strings, push_char};

verus! {

/// The number that four bytes at `at` spell, least significant byte first.
pub open spec fn le_u32(s: Seq<u8>, at: int) -> int {
    s[at] + 0x100 * s[at + 1] + 0x1_0000 * s[at + 2] + 0x100_0000 * s[at + 3]
}

/// The lengths of the manifest and of the tarball that an upload announces,
/// when the upload is exactly a length, a manifest of that length, a second
/// length and a tarball of that second length.
pub open spec fn framing_of(content: Seq<u8>) -> Option<(int, int)> {
    if content.len() < 4 {
        None
    } else {
        let manifest = le_u32(content, 0);
        if content.len() < 8 + manifest {
            None
        } else {
            let tarball = le_u32(content, 4 + manifest);
            if content.len() != 8 + manifest + tarball {
                None
            } else {
                Some((manifest, tarball))
            }
        }
    }
}

/// The SHA-256 digest of bytes.
pub uninterp spec fn sha256_of(data: Seq<u8>) -> Seq<u8>;

/// Computes the SHA-256 digest of bytes. The body calls `sha2::Sha256::digest`,
/// which hashes the whole input at once; the digest depends on the input
/// alone and has 32 bytes.
#[verifier::external_body]
fn sha256(data: &[u8]) -> (digest: Vec<u8>)
    ensures
        digest@ == sha256_of(data@),
        digest@.len() == 32,
{
    sha2::Sha256::digest(data).to_vec()
}

/// The hexadecimal digit of a number below sixteen, with small letters.
pub open spec fn hex_char(d: u8) -> char {
    if d < 10 {
        (0x30 + d) as char
    } else {
        (0x61 - 10 + d) as char
    }
}

/// Bytes in hexadecimal: two digits for each byte, the upper half first.
pub open spec fn hex_text(bytes: Seq<u8>) -> Seq<char> {
    Seq::new(
        2 * bytes.len(),
        |i: int|
            if i % 2 == 0 {
                hex_char(bytes[i / 2] / 16)
            } else {
                hex_char(bytes[i / 2] % 16)
            },
    )
}

fn hex_digit(d: u8) -> (c: char)
    requires
        d < 16,
    ensures
        c == hex_char(d),
{
    if d < 10 {
        (0x30 + d) as char
    } else {
        (0x61 - 10 + d) as char
    }
}

/// Writes bytes in hexadecimal.
pub fn to_hex(bytes: &[u8]) -> (r: String)
    ensures
        r@ == hex_text(bytes@),
{
    let mut r = String::new();
    let mut i: usize = 0;
    while i < bytes.len()
        invariant
            i <= bytes.len(),
            r@ == hex_text(bytes@.subrange(0, i as int)),
        decreases bytes.len() - i,
    {
        let b = bytes[i];
        push_char(&mut r, hex_digit(b / 16));
        push_char(&mut r, hex_digit(b % 16));
        assert(r@ =~= hex_text(bytes@.subrange(0, i + 1)));
        i += 1;
    }
    assert(bytes@.subrange(0, bytes.len() as int) =~= bytes@);
    r
}

/// The two parts of an upload.
pub struct CrateUploadData<'a> {
    /// The manifest, as the JSON text that the client sent.
    pub manifest: &'a [u8],
    /// The tarball.
    pub content: &'a [u8],
}

fn read_le_u32(bytes: &[u8], at: usize) -> (r: u64)
    requires
        at + 4 <= bytes.len(),
    ensures
        r == le_u32(bytes@, at as int),
        r < 0x1_0000_0000,
{
    let b0 = bytes[at] as u64;
    let b1 = bytes[at + 1] as u64;
    let b2 = bytes[at + 2] as u64;
    let b3 = bytes[at + 3] as u64;
    b0 + 0x100 * b1 + 0x1_0000 * b2 + 0x100_0000 * b3
}

impl<'a> CrateUploadData<'a> {
    /// Splits an upload into its manifest and its tarball. An upload that is
    /// shorter or longer than its two length prefixes announce is refused as
    /// an invalid request.
    pub fn new(content: &'a [u8]) -> (r: Result<CrateUploadData<'a>, ApiError>)
        ensures
            r is Ok <==> framing_of(content@) is Some,
            r is Ok ==> {
                let (manifest, tarball) = framing_of(content@)->0;
                &&& r->Ok_0.manifest@ == content@.subrange(4, 4 + manifest)
                &&& r->Ok_0.content@ == content@.subrange(8 + manifest, 8 + manifest + tarball)
            },
            r is Err ==> r->Err_0.is_detailed(
                ErrorKind::InvalidRequest,
                "malformed upload"@,
            ),
    {
        let total = content.len() as u64;
        if total < 4 {
            return Err(specialize(error_invalid_request(), "malformed upload".to_owned()));
        }
        let manifest = read_le_u32(content, 0);
        if total < 8 + manifest {
            return Err(specialize(error_invalid_request(), "malformed upload".to_owned()));
        }
        let second = (4 + manifest) as usize;
        let tarball = read_le_u32(content, second);
        if total != 8 + manifest + tarball {
            return Err(specialize(error_invalid_request(), "malformed upload".to_owned()));
        }
        Ok(
            CrateUploadData {
                manifest: slice_subrange(content, 4, second),
                content: slice_subrange(content, second + 4, content.len()),
            },
        )
    }

    /// The checksum of the tarball as the index records it: its SHA-256
    /// digest in hexadecimal.
    pub fn checksum(&self) -> (r: String)
        ensures
            r@ == hex_text(sha256_of(self.content@)),
            r@.len() == 64,
    {
        let digest = sha256(self.content);
        to_hex(digest.as_slice())
    }

    /// The record in the index of the version that this upload carries, given
    /// the manifest that was read from it: what the manifest says, with the
    /// checksum of the tarball, and not withdrawn.
    pub fn build_index_data(&self, metadata: &CrateMetadata) -> (entry: IndexEntry)
        ensures
            metadata.is_recorded_as(entry, hex_text(sha256_of(self.content@))),
            !entry.yanked,
    {
        metadata.build_index_data(self.checksum())
    }
}

/// What a dependency is needed for.
#[derive(Clone, Copy, Debug, PartialEq, Eq, Structural)]
pub enum DependencyKind {
    /// Needed to build and run the package.
    Normal,
    /// Needed for tests and examples only.
    Dev,
    /// Needed by the build script.
    Build,
}

/// A dependency as a manifest states it.
#[derive(Clone, Debug)]
pub struct Dependency {
    /// The name of the package depended on.
    pub name: String,
    /// The version requirement.
    pub version_req: String,
    /// The features asked of the dependency.
    pub features: Vec<String>,
    /// Whether the dependency is optional.
    pub optional: bool,
    /// Whether the default features are asked for.
    pub default_features: bool,
    /// The platform the dependency is limited to, if any.
    pub target: Option<String>,
    /// What the dependency is needed for.
    pub kind: DependencyKind,
    /// The registry of the dependency, if it is another one.
    pub registry: Option<String>,
    /// The name under which the dependent package uses it, if it renamed it.
    pub explicit_name_in_toml: Option<String>,
}

/// A feature and what it enables.
#[derive(Clone, Debug)]
pub struct Feature {
    /// The name of the feature.
    pub name: String,
    /// The features and dependencies that it enables.
    pub enables: Vec<String>,
}

/// The manifest of an uploaded version.
#[derive(Clone, Debug)]
pub struct CrateMetadata {
    /// The name of the package.
    pub name: String,
    /// The version.
    pub vers: String,
    /// The dependencies.
    pub deps: Vec<Dependency>,
    /// The features.
    pub features: Vec<Feature>,
    /// The native library the package links, if any.
    pub links: Option<String>,
}

/// A dependency as the index records it: under the name the dependent package
/// uses, with the real package name beside it where the two differ.
#[derive(Clone, Debug)]
pub struct IndexDependency {
    /// The name under which the dependent package uses the dependency.
    pub name: String,
    /// The version requirement.
    pub req: String,
    /// The features asked of the dependency.
    pub features: Vec<String>,
    /// Whether the dependency is optional.
    pub optional: bool,
    /// Whether the default features are asked for.
    pub default_features: bool,
    /// The platform the dependency is limited to, if any.
    pub target: Option<String>,
    /// What the dependency is needed for.
    pub kind: DependencyKind,
    /// The registry of the dependency, if it is another one.
    pub registry: Option<String>,
    /// The name of the package, where the dependent package renamed it.
    pub package: Option<String>,
}

/// One version of a package as the index records it.
#[derive(Clone, Debug)]
pub struct IndexEntry {
    /// The name of the package.
    pub name: String,
    /// The version.
    pub vers: String,
    /// The dependencies.
    pub deps: Vec<IndexDependency>,
    /// The SHA-256 checksum of the tarball, in hexadecimal.
    pub cksum: String,
    /// The features.
    pub features: Vec<Feature>,
    /// Whether the version was withdrawn.
    pub yanked: bool,
    /// The native library the package links, if any.
    pub links: Option<String>,
}

impl Dependency {
    /// The dependency names a package, and so does its new name if it has
    /// one, and it states a version requirement.
    pub open spec fn is_valid(self) -> bool {
        &&& is_package_name(bytes_of(self.name@))
        &&& self.version_req@.len() > 0
        &&& (self.explicit_name_in_toml is Some ==> is_package_name(
            bytes_of(self.explicit_name_in_toml->0@),
        ))
    }

    /// Whether `entry` records this dependency.
    pub open spec fn is_recorded_as(self, entry: IndexDependency) -> bool {
        &&& entry.name == (if self.explicit_name_in_toml is Some {
            self.explicit_name_in_toml->0
        } else {
            self.name
        })
        &&& entry.package == (if self.explicit_name_in_toml is Some {
            Some(self.name)
        } else {
            None
        })
        &&& entry.req == self.version_req
        &&& entry.features@ == self.features@
        &&& entry.optional == self.optional
        &&& entry.default_features == self.default_features
        &&& entry.target == self.target
        &&& entry.kind == self.kind
        &&& entry.registry == self.registry
    }

    /// Whether `other` states the same dependency.
    pub open spec fn agrees_with(self, other: Dependency) -> bool {
        &&& self.name == other.name
        &&& self.explicit_name_in_toml == other.explicit_name_in_toml
        &&& self.version_req == other.version_req
        &&& self.features@ == other.features@
        &&& self.optional == other.optional
        &&& self.default_features == other.default_features
        &&& self.target == other.target
        &&& self.kind == other.kind
        &&& self.registry == other.registry
    }

    fn check(&self) -> (r: bool)
        ensures
            r == self.is_valid(),
    {
        if !is_valid_package_name(self.name.as_str()) || self.version_req.as_str().is_empty() {
            return false;
        }
        match &self.explicit_name_in_toml {
            Some(renamed) => is_valid_package_name(renamed.as_str()),
            None => true,
        }
    }

    /// The record of this dependency in the index.
    pub fn to_index(&self) -> (entry: IndexDependency)
        ensures
            self.is_recorded_as(entry),
    {
        let (name, package) = match &self.explicit_name_in_toml {
            Some(renamed) => (renamed.clone(), Some(self.name.clone())),
            None => (self.name.clone(), None),
        };
        IndexDependency {
            name,
            req: self.version_req.clone(),
            features: clone_strings(&self.features),
            optional: self.optional,
            default_features: self.default_features,
            target: clone_optional(&self.target),
            kind: self.kind,
            registry: clone_optional(&self.registry),
            package,
        }
    }
}

impl IndexDependency {
    /// The dependency of a manifest that this record stands for.
    pub fn to_manifest(&self) -> (dep: Dependency)
        ensures
            dep.is_recorded_as(*self),
    {
        let (name, renamed) = match &self.package {
            Some(package) => (package.clone(), Some(self.name.clone())),
            None => (self.name.clone(), None),
        };
        Dependency {
            name,
            version_req: self.req.clone(),
            features: clone_strings(&self.features),
            optional: self.optional,
            default_features: self.default_features,
            target: clone_optional(&self.target),
            kind: self.kind,
            registry: clone_optional(&self.registry),
            explicit_name_in_toml: renamed,
        }
    }
}

impl IndexEntry {
    /// The manifest that this line of the index stands for.
    pub fn to_manifest(&self) -> (metadata: CrateMetadata)
        ensures
            metadata.is_recorded_as(*self, self.cksum@),
    {
        let mut deps: Vec<Dependency> = Vec::new();
        let mut i: usize = 0;
        while i < self.deps.len()
            invariant
                i <= self.deps@.len(),
                deps@.len() == i,
                forall|j: int| 0 <= j < i ==> (#[trigger] deps@[j]).is_recorded_as(self.deps@[j]),
            decreases self.deps@.len() - i,
        {
            deps.push(self.deps[i].to_manifest());
            i += 1;
        }
        let mut features: Vec<Feature> = Vec::new();
        let mut k: usize = 0;
        while k < self.features.len()
            invariant
                k <= self.features@.len(),
                features@.len() == k,
                forall|j: int| 0 <= j < k ==> (#[trigger] features@[j]).same_as(self.features@[j]),
            decreases self.features@.len() - k,
        {
            let feature = &self.features[k];
            features.push(
                Feature { name: feature.name.clone(), enables: clone_strings(&feature.enables) },
            );
            k += 1;
        }
        CrateMetadata {
            name: self.name.clone(),
            vers: self.vers.clone(),
            deps,
            features,
            links: clone_optional(&self.links),
        }
    }
}

impl Feature {
    /// The feature has the name of a feature, and nothing that it enables is
    /// without a name.
    pub open spec fn is_valid(self) -> bool {
        &&& is_feature_name(bytes_of(self.name@))
        &&& forall|i: int| 0 <= i < self.enables@.len() ==> (#[trigger] self.enables@[i])@.len() > 0
    }

    fn check(&self) -> (r: bool)
        ensures
            r == self.is_valid(),
    {
        if !is_valid_feature_name(self.name.as_str()) {
            return false;
        }
        let mut i: usize = 0;
        while i < self.enables.len()
            invariant
                i <= self.enables@.len(),
                forall|j: int| 0 <= j < i ==> (#[trigger] self.enables@[j])@.len() > 0,
            decreases self.enables@.len() - i,
        {
            if self.enables[i].as_str().is_empty() {
                return false;
            }
            i += 1;
        }
        true
    }

    /// Whether `other` is the same feature with the same consequences.
    pub open spec fn same_as(self, other: Feature) -> bool {
        self.name == other.name && self.enables@ == other.enables@
    }
}

impl CrateMetadata {
    /// The manifest names a package and a semantic version, and every
    /// dependency and every feature is valid.
    pub open spec fn is_valid(self) -> bool {
        &&& is_package_name(bytes_of(self.name@))
        &&& is_semver(bytes_of(self.vers@))
        &&& forall|i: int| 0 <= i < self.deps@.len() ==> (#[trigger] self.deps@[i]).is_valid()
        &&& forall|i: int| 0 <= i < self.features@.len() ==> (#[trigger] self.features@[i]).is_valid()
    }

    /// Whether `entry` is the record of this manifest in the index, with the
    /// given checksum.
    pub open spec fn is_recorded_as(self, entry: IndexEntry, cksum: Seq<char>) -> bool {
        &&& entry.name == self.name
        &&& entry.vers == self.vers
        &&& entry.cksum@ == cksum
        &&& entry.links == self.links
        &&& entry.deps@.len() == self.deps@.len()
        &&& forall|i: int|
            0 <= i < self.deps@.len() ==> (#[trigger] self.deps@[i]).is_recorded_as(entry.deps@[i])
        &&& entry.features@.len() == self.features@.len()
        &&& forall|i: int|
            0 <= i < self.features@.len() ==> (#[trigger] self.features@[i]).same_as(
                entry.features@[i],
            )
    }

    /// Whether `other` states the same package, version, dependencies,
    /// features and link.
    pub open spec fn agrees_with(self, other: CrateMetadata) -> bool {
        &&& self.name == other.name
        &&& self.vers == other.vers
        &&& self.links == other.links
        &&& self.deps@.len() == other.deps@.len()
        &&& forall|i: int|
            0 <= i < self.deps@.len() ==> (#[trigger] self.deps@[i]).agrees_with(other.deps@[i])
        &&& self.features@.len() == other.features@.len()
        &&& forall|i: int|
            0 <= i < self.features@.len() ==> (#[trigger] self.features@[i]).same_as(
                other.features@[i],
            )
    }

    /// Accepts a valid manifest and refuses any other as an invalid request.
    pub fn validate(&self) -> (r: Result<(), ApiError>)
        ensures
            r is Ok <==> self.is_valid(),
            r is Err ==> r->Err_0.is_detailed(ErrorKind::InvalidRequest, "invalid manifest"@),
    {
        if !is_valid_package_name(self.name.as_str()) || !is_valid_version(self.vers.as_str()) {
            return Err(specialize(error_invalid_request(), "invalid manifest".to_owned()));
        }
        let mut i: usize = 0;
        while i < self.deps.len()
            invariant
                i <= self.deps@.len(),
                forall|j: int| 0 <= j < i ==> (#[trigger] self.deps@[j]).is_valid(),
            decreases self.deps@.len() - i,
        {
            if !self.deps[i].check() {
                return Err(specialize(error_invalid_request(), "invalid manifest".to_owned()));
            }
            i += 1;
        }
        let mut k: usize = 0;
        while k < self.features.len()
            invariant
                k <= self.features@.len(),
                forall|j: int| 0 <= j < k ==> (#[trigger] self.features@[j]).is_valid(),
            decreases self.features@.len() - k,
        {
            if !self.features[k].check() {
                return Err(specialize(error_invalid_request(), "invalid manifest".to_owned()));
            }
            k += 1;
        }
        Ok(())
    }

    /// The record of this manifest in the index: the same name, version,
    /// features and link, each dependency under the name its user gave it, the
    /// given checksum, and not withdrawn.
    pub fn build_index_data(&self, cksum: String) -> (entry: IndexEntry)
        ensures
            self.is_recorded_as(entry, cksum@),
            !entry.yanked,
    {
        let mut deps: Vec<IndexDependency> = Vec::new();
        let mut i: usize = 0;
        while i < self.deps.len()
            invariant
                i <= self.deps@.len(),
                deps@.len() == i,
                forall|j: int| 0 <= j < i ==> (#[trigger] self.deps@[j]).is_recorded_as(deps@[j]),
            decreases self.deps@.len() - i,
        {
            deps.push(self.deps[i].to_index());
            i += 1;
        }
        let mut features: Vec<Feature> = Vec::new();
        let mut k: usize = 0;
        while k < self.features.len()
            invariant
                k <= self.features@.len(),
                features@.len() == k,
                forall|j: int|
                    0 <= j < k ==> (#[trigger] self.features@[j]).same_as(features@[j]),
            decreases self.features@.len() - k,
        {
            let feature = &self.features[k];
            features.push(
                Feature { name: feature.name.clone(), enables: clone_strings(&feature.enables) },
            );
            k += 1;
        }
        IndexEntry {
            name: self.name.clone(),
            vers: self.vers.clone(),
            deps,
            cksum,
            features,
            yanked: false,
            links: clone_optional(&self.links),
        }
    }
}

/// A line of the index keeps what the manifest said: manifests that are
/// recorded as the same line state the same name, version, dependencies,
/// features and link, and the line has one checksum. So the manifest that is
/// read back from the line of a published manifest agrees with it.
pub proof fn lemma_index_line_keeps_manifest(
    published: CrateMetadata,
    read_back: CrateMetadata,
    line: IndexEntry,
    cksum: Seq<char>,
    cksum_read: Seq<char>,
)
    requires
        published.is_recorded_as(line, cksum),
        read_back.is_recorded_as(line, cksum_read),
    ensures
        published.agrees_with(read_back),
        cksum == cksum_read,
{
    assert forall|i: int| 0 <= i < published.deps@.len() implies (#[trigger] published.deps@[i]).agrees_with(
        read_back.deps@[i],
    ) by {
        assert(published.deps@[i].is_recorded_as(line.deps@[i]));
        assert(read_back.deps@[i].is_recorded_as(line.deps@[i]));
    }
    assert forall|i: int| 0 <= i < published.features@.len() implies (
    #[trigger] published.features@[i]).same_as(read_back.features@[i]) by {
        assert(published.features@[i].same_as(line.features@[i]));
        assert(read_back.features@[i].same_as(line.features@[i]));
    }
}

} // verus!
