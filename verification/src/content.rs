//! Content types of the files the registry serves.

use vstd::prelude::*;
use vstd::string::*;
use crate::text::{last_position, lemma_last_position_bounds, range_is, rfind_byte, DOT};

verus! {

/// The part of a file name after its last dot, if it has a dot.
pub open spec fn extension_of(name: Seq<u8>) -> Option<Seq<u8>> {
    let dot = last_position(name, DOT);
    if dot < 0 {
        None
    } else {
        Some(name.subrange(dot + 1, name.len() as int))
    }
}

/// The media type that belongs to an extension.
pub open spec fn media_type_of(extension: Option<Seq<u8>>) -> Seq<char> {
    if extension == Some("html".spec_bytes()) {
        "text/html"@
    } else if extension == Some("css".spec_bytes()) {
        "text/css"@
    } else if extension == Some("js".spec_bytes()) {
        "text/javascript"@
    } else if extension == Some("gif".spec_bytes()) {
        "image/gif"@
    } else if extension == Some("png".spec_bytes()) {
        "image/png"@
    } else if extension == Some("jpeg".spec_bytes()) {
        "image/jpeg"@
    } else if extension == Some("bmp".spec_bytes()) {
        "image/bmp"@
    } else if extension == Some("webp".spec_bytes()) {
        "image/webp"@
    } else if extension == Some("svg".spec_bytes()) {
        "image/svg+xml"@
    } else if extension == Some("ico".spec_bytes()) {
        "image/x-icon"@
    } else {
        "application/octet-stream"@
    }
}

/// The media type of a documentation or web resource, chosen by the text after
/// the last dot of its name. Names without a dot, and extensions that are not
/// known, are served as opaque bytes.
pub fn get_content_type(name: &str) -> (r: &'static str)
    ensures
        r@ == media_type_of(extension_of(name.spec_bytes())),
{
    let bytes = name.as_bytes();
    let n = bytes.len();
    match rfind_byte(bytes, DOT) {
        None => "application/octet-stream",
        Some(dot) => {
            proof {
                lemma_last_position_bounds(bytes@, DOT);
            }
            let from = dot + 1;
            if range_is(bytes, from, n, "html") {
                "text/html"
            } else if range_is(bytes, from, n, "css") {
                "text/css"
            } else if range_is(bytes, from, n, "js") {
                "text/javascript"
            } else if range_is(bytes, from, n, "gif") {
                "image/gif"
            } else if range_is(bytes, from, n, "png") {
                "image/png"
            } else if range_is(bytes, from, n, "jpeg") {
                "image/jpeg"
            } else if range_is(bytes, from, n, "bmp") {
                "image/bmp"
            } else if range_is(bytes, from, n, "webp") {
                "image/webp"
            } else if range_is(bytes, from, n, "svg") {
                "image/svg+xml"
            } else if range_is(bytes, from, n, "ico") {
                "image/x-icon"
            } else {
                "application/octet-stream"
            }
        },
    }
}

} // verus!
