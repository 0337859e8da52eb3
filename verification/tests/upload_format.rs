use cratery::error::ErrorKind;
use cratery::upload::{CrateMetadata, CrateUploadData, Dependency, DependencyKind, Feature};

fn frame(manifest: &[u8], tarball: &[u8]) -> Vec<u8> {
    let mut body = Vec::new();
    body.extend_from_slice(&(manifest.len() as u32).to_le_bytes());
    body.extend_from_slice(manifest);
    body.extend_from_slice(&(tarball.len() as u32).to_le_bytes());
    body.extend_from_slice(tarball);
    body
}

fn manifest(name: &str, vers: &str) -> CrateMetadata {
    CrateMetadata {
        name: name.to_string(),
        vers: vers.to_string(),
        deps: Vec::new(),
        features: Vec::new(),
        links: None,
    }
}

fn dependency(name: &str, renamed: Option<&str>) -> Dependency {
    Dependency {
        name: name.to_string(),
        version_req: "^1.0".to_string(),
        features: vec!["derive".to_string()],
        optional: true,
        default_features: false,
        target: Some("cfg(unix)".to_string()),
        kind: DependencyKind::Build,
        registry: None,
        explicit_name_in_toml: renamed.map(|n| n.to_string()),
    }
}

#[test]
fn upload_is_split_at_its_lengths() {
    let tarball = vec![7u8; 1234];
    let body = frame(b"{\"name\":\"foo\"}", &tarball);
    let parts = CrateUploadData::new(&body).unwrap();
    assert_eq!(parts.manifest, b"{\"name\":\"foo\"}");
    assert_eq!(parts.content.len(), 1234);
    assert_eq!(parts.content, &tarball[..]);
}

#[test]
fn upload_with_empty_parts() {
    let body = frame(b"", b"");
    let parts = CrateUploadData::new(&body).unwrap();
    assert!(parts.manifest.is_empty());
    assert!(parts.content.is_empty());
}

#[test]
fn upload_with_long_manifest() {
    let manifest = vec![b'x'; 70_000];
    let body = frame(&manifest, b"abc");
    let parts = CrateUploadData::new(&body).unwrap();
    assert_eq!(parts.manifest.len(), 70_000);
    assert_eq!(parts.content, b"abc");
}

#[test]
fn tarball_length_beyond_the_body_is_refused() {
    let mut body = frame(b"{}", b"abcdef");
    body.truncate(body.len() - 1);
    let error = CrateUploadData::new(&body).err().unwrap();
    assert_eq!(error.kind, ErrorKind::InvalidRequest);
    assert_eq!(error.details.as_deref(), Some("malformed upload"));
}

#[test]
fn malformed_uploads_are_refused() {
    let good = frame(b"{}", b"abcdef");
    let mut longer = good.clone();
    longer.push(0);
    let mut huge = good.clone();
    huge[0] = 0xff;
    huge[3] = 0xff;
    for body in [&b""[..], &b"\x01\x00"[..], &b"\x02\x00\x00\x00{}"[..], &b"\x02\x00\x00\x00{}\x01\x00\x00"[..], &longer[..], &huge[..]] {
        let error = CrateUploadData::new(body).err().unwrap();
        assert_eq!(error.kind, ErrorKind::InvalidRequest);
    }
}

#[test]
fn manifests_are_validated() {
    assert!(manifest("foo", "0.1.0").validate().is_ok());
    assert_eq!(manifest("", "0.1.0").validate().unwrap_err().kind, ErrorKind::InvalidRequest);
    assert_eq!(manifest("foo", "1").validate().unwrap_err().kind, ErrorKind::InvalidRequest);
    let mut with_deps = manifest("foo", "0.1.0");
    with_deps.deps.push(dependency("serde", None));
    with_deps.deps.push(dependency("serde_json", Some("json")));
    with_deps.features.push(Feature { name: "std".to_string(), enables: vec![] });
    assert!(with_deps.validate().is_ok());
    let mut bad_dep = with_deps.clone();
    bad_dep.deps.push(dependency("not a name", None));
    assert_eq!(bad_dep.validate().unwrap_err().details.as_deref(), Some("invalid manifest"));
    let mut bad_rename = with_deps.clone();
    bad_rename.deps.push(dependency("serde", Some("")));
    assert!(bad_rename.validate().is_err());
    let mut bad_feature = with_deps.clone();
    bad_feature.features.push(Feature { name: String::new(), enables: vec![] });
    assert!(bad_feature.validate().is_err());
    let mut no_requirement = with_deps.clone();
    no_requirement.deps[0].version_req = String::new();
    assert!(no_requirement.validate().is_err());
    for (name, good) in [("std", true), ("1abc", true), ("_x", true), ("a+b.c-d_e", true), ("+x", false), ("a b", false), ("-x", false), ("a/b", false), ("\u{e9}", false)] {
        let mut m = manifest("foo", "0.1.0");
        m.features.push(Feature { name: name.to_string(), enables: vec!["dep:serde".to_string()] });
        assert_eq!(m.validate().is_ok(), good, "{}", name);
    }
    let mut nothing_enabled = manifest("foo", "0.1.0");
    nothing_enabled.features.push(Feature { name: "std".to_string(), enables: vec!["a".to_string(), String::new()] });
    assert!(nothing_enabled.validate().is_err());
}

#[test]
fn index_entry_keeps_the_manifest() {
    let mut m = manifest("foo", "0.1.0");
    m.links = Some("z".to_string());
    m.deps.push(dependency("serde", None));
    m.deps.push(dependency("serde_json", Some("json")));
    m.features.push(Feature { name: "std".to_string(), enables: vec!["serde/std".to_string()] });
    let cksum = "ab".repeat(32);
    let entry = m.build_index_data(cksum.clone());
    assert_eq!(entry.name, "foo");
    assert_eq!(entry.vers, "0.1.0");
    assert_eq!(entry.cksum, cksum);
    assert!(!entry.yanked);
    assert_eq!(entry.links.as_deref(), Some("z"));
    assert_eq!(entry.deps.len(), 2);
    assert_eq!(entry.deps[0].name, "serde");
    assert_eq!(entry.deps[0].package, None);
    assert_eq!(entry.deps[0].req, "^1.0");
    assert_eq!(entry.deps[0].features, vec!["derive".to_string()]);
    assert!(entry.deps[0].optional);
    assert!(!entry.deps[0].default_features);
    assert_eq!(entry.deps[0].target.as_deref(), Some("cfg(unix)"));
    assert_eq!(entry.deps[0].kind, DependencyKind::Build);
    assert_eq!(entry.deps[0].registry, None);
    assert_eq!(entry.deps[1].name, "json");
    assert_eq!(entry.deps[1].package.as_deref(), Some("serde_json"));
    assert_eq!(entry.features.len(), 1);
    assert_eq!(entry.features[0].name, "std");
    assert_eq!(entry.features[0].enables, vec!["serde/std".to_string()]);
}

#[test]
fn checksum_is_the_digest_in_hexadecimal() {
    let mut body = Vec::new();
    body.extend_from_slice(&2u32.to_le_bytes());
    body.extend_from_slice(b"{}");
    body.extend_from_slice(&11u32.to_le_bytes());
    body.extend_from_slice(b"hello world");
    let parts = CrateUploadData::new(&body).unwrap();
    assert_eq!(parts.checksum(), "b94d27b9934d3e08a52e52d7da7dabfac484efe37a5380ee9088f7ace2efcde9");
    let entry = parts.build_index_data(&manifest("foo", "0.1.0"));
    assert_eq!(entry.cksum, "b94d27b9934d3e08a52e52d7da7dabfac484efe37a5380ee9088f7ace2efcde9");
    assert_eq!(entry.name, "foo");
    assert_eq!(entry.vers, "0.1.0");
    assert!(!entry.yanked);
    let empty = frame(b"{}", b"");
    let parts = CrateUploadData::new(&empty).unwrap();
    assert_eq!(parts.checksum(), "e3b0c44298fc1c149afbf4c8996fb92427ae41e4649b934ca495991b7852b855");
}

#[test]
fn bytes_in_hexadecimal() {
    assert_eq!(cratery::upload::to_hex(&[]), "");
    assert_eq!(cratery::upload::to_hex(&[0x00, 0x09, 0x0a, 0x1f, 0xa0, 0xff]), "00090a1fa0ff");
}

#[test]
fn manifest_is_read_back_from_its_index_line() {
    let mut m = manifest("foo", "0.1.0");
    m.links = Some("z".to_string());
    m.deps.push(dependency("serde", None));
    m.deps.push(dependency("serde_json", Some("json")));
    m.features.push(Feature { name: "std".to_string(), enables: vec!["serde/std".to_string()] });
    m.features.push(Feature { name: "default".to_string(), enables: vec![] });
    let mut entry = m.build_index_data("cd".repeat(32));
    entry.yanked = true;
    let back = entry.to_manifest();
    assert_eq!(back.name, m.name);
    assert_eq!(back.vers, m.vers);
    assert_eq!(back.links, m.links);
    assert_eq!(back.deps.len(), 2);
    for (a, b) in back.deps.iter().zip(m.deps.iter()) {
        assert_eq!(a.name, b.name);
        assert_eq!(a.explicit_name_in_toml, b.explicit_name_in_toml);
        assert_eq!(a.version_req, b.version_req);
        assert_eq!(a.features, b.features);
        assert_eq!(a.optional, b.optional);
        assert_eq!(a.default_features, b.default_features);
        assert_eq!(a.target, b.target);
        assert_eq!(a.kind, b.kind);
        assert_eq!(a.registry, b.registry);
    }
    assert_eq!(back.features.len(), 2);
    assert_eq!(back.features[0].name, "std");
    assert_eq!(back.features[0].enables, vec!["serde/std".to_string()]);
    assert_eq!(back.features[1].name, "default");
    let again = back.build_index_data(entry.cksum.clone());
    assert_eq!(again.cksum, entry.cksum);
    assert_eq!(again.deps[1].name, "json");
    assert_eq!(again.deps[1].package.as_deref(), Some("serde_json"));
}
