use cratery::error::ErrorKind;
use cratery::index::{
    find_index_file, index_content_type, index_file_path, index_path_bytes, pkt_line, publish_message,
    unyank_message, upload_pack_advertisement, yank_message,
};
use cratery::storage::{crate_path, doc_file_path, docs_path, readme_path};

#[test]
fn index_file_of_a_three_letter_name() {
    assert_eq!(find_index_file("foo").unwrap(), "3/f/foo");
}

#[test]
fn index_files_are_sharded_by_length() {
    assert_eq!(find_index_file("a").unwrap(), "1/a");
    assert_eq!(find_index_file("ab").unwrap(), "2/ab");
    assert_eq!(find_index_file("abc").unwrap(), "3/a/abc");
    assert_eq!(find_index_file("abcd").unwrap(), "ab/cd/abcd");
    assert_eq!(find_index_file("serde").unwrap(), "se/rd/serde");
    assert_eq!(find_index_file("tokio-util").unwrap(), "to/ki/tokio-util");
    assert_eq!(index_file_path("serde_json"), "se/rd/serde_json");
}

#[test]
fn index_files_ignore_case() {
    assert_eq!(find_index_file("Foo").unwrap(), "3/f/foo");
    assert_eq!(find_index_file("SerDe").unwrap(), "se/rd/serde");
    assert_eq!(find_index_file("Z").unwrap(), "1/z");
    assert_eq!(index_path_bytes(b"AbCdE"), b"ab/cd/abcde".to_vec());
}

#[test]
fn sharding_is_a_function_of_the_name() {
    for name in ["foo", "a", "serde", "Tokio"] {
        assert_eq!(find_index_file(name).unwrap(), find_index_file(name).unwrap());
    }
}

#[test]
fn no_index_file_for_what_is_no_name() {
    for bad in ["", "1a", "a/b", "..", "a b"] {
        let error = find_index_file(bad).unwrap_err();
        assert_eq!(error.kind, ErrorKind::InvalidRequest);
    }
}

#[test]
fn commit_messages() {
    assert_eq!(publish_message("foo", "0.1.0"), "publish foo 0.1.0");
    assert_eq!(yank_message("foo", "0.1.0"), "yank foo 0.1.0");
    assert_eq!(unyank_message("foo", "0.1.0"), "unyank foo 0.1.0");
}

#[test]
fn sparse_get_of_a_package_file_is_json() {
    assert_eq!(index_content_type("/3/f/foo"), "application/json");
}

#[test]
fn sparse_content_types() {
    assert_eq!(index_content_type("/config.json"), "application/json");
    assert_eq!(index_content_type("/CONFIG.JSON"), "application/json");
    assert_eq!(index_content_type("/1/a"), "application/json");
    assert_eq!(index_content_type("/2/ab"), "application/json");
    assert_eq!(index_content_type("/se/rd/serde"), "application/json");
    assert_eq!(index_content_type("/HEAD"), "text/plain; charset=utf-8");
    assert_eq!(index_content_type("/info/refs"), "text/plain; charset=utf-8");
    assert_eq!(index_content_type("/info"), "text/plain; charset=utf-8");
    assert_eq!(index_content_type("/objects/pack/pack-1.pack"), "application/octet-stream");
    assert_eq!(index_content_type("/3/f/bar"), "application/octet-stream");
    assert_eq!(index_content_type("/3/F/Foo"), "application/octet-stream");
    assert_eq!(index_content_type("3/f/foo"), "application/octet-stream");
    assert_eq!(index_content_type("/.json"), "application/octet-stream");
    assert_eq!(index_content_type("/a.json/b"), "application/octet-stream");
    assert_eq!(index_content_type(""), "application/octet-stream");
    assert_eq!(index_content_type("/head"), "application/octet-stream");
}

#[test]
fn places_in_the_artifact_store() {
    assert_eq!(crate_path("foo", "0.1.0"), "crates/foo/0.1.0.crate");
    assert_eq!(readme_path("foo", "0.1.0"), "readmes/foo/0.1.0.md");
    assert_eq!(
        docs_path("foo", "0.1.0", "x86_64-unknown-linux-gnu"),
        "docs/foo/0.1.0/x86_64-unknown-linux-gnu/"
    );
    assert_eq!(doc_file_path("foo/0.1.0/index.html"), "docs/foo/0.1.0/index.html");
}

#[test]
fn packet_lines_carry_their_length() {
    assert_eq!(pkt_line(b"").unwrap(), b"0004".to_vec());
    assert_eq!(pkt_line(b"a\n").unwrap(), b"0006a\n".to_vec());
    assert_eq!(pkt_line(b"want 0123\n").unwrap(), b"000ewant 0123\n".to_vec());
    assert_eq!(pkt_line(&[b'x'; 251]).unwrap()[..4], b"00ff"[..]);
    assert_eq!(pkt_line(&[b'x'; 252]).unwrap()[..4], b"0100"[..]);
    let longest = pkt_line(&vec![0u8; 65516]).unwrap();
    assert_eq!(longest[..4], b"fff0"[..]);
    assert_eq!(longest.len(), 65520);
    let error = pkt_line(&vec![0u8; 65517]).unwrap_err();
    assert_eq!(error.kind, ErrorKind::Internal);
}

#[test]
fn advertisement_names_the_service() {
    assert_eq!(upload_pack_advertisement(b""), b"001e# service=git-upload-pack\n0000".to_vec());
    assert_eq!(
        upload_pack_advertisement(b"003fabc refs/heads/master\n0000"),
        b"001e# service=git-upload-pack\n0000003fabc refs/heads/master\n0000".to_vec()
    );
}
