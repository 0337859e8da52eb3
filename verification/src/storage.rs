//! Where the artifact store keeps what it holds.

use vstd::prelude::*;
use vstd::string::*;

verus! {

/// The place of the tarball of a version.
pub fn crate_path(name: &str, version: &str) -> (r: String)
    ensures
        r@ == "crates/"@ + name@ + "/"@ + version@ + ".crate"@,
{
    let mut r = "crates/".to_owned();
    r.append(name);
    r.append("/");
    r.append(version);
    r.append(".crate");
    r
}

/// The place of the README of a version.
pub fn readme_path(name: &str, version: &str) -> (r: String)
    ensures
        r@ == "readmes/"@ + name@ + "/"@ + version@ + ".md"@,
{
    let mut r = "readmes/".to_owned();
    r.append(name);
    r.append("/");
    r.append(version);
    r.append(".md");
    r
}

/// The directory of the documentation of a version for a platform.
pub fn docs_path(name: &str, version: &str, target: &str) -> (r: String)
    ensures
        r@ == "docs/"@ + name@ + "/"@ + version@ + "/"@ + target@ + "/"@,
{
    let mut r = "docs/".to_owned();
    r.append(name);
    r.append("/");
    r.append(version);
    r.append("/");
    r.append(target);
    r.append("/");
    r
}

/// The place of a file of the documentation, given its path below the root
/// of the documentation.
pub fn doc_file_path(file: &str) -> (r: String)
    ensures
        r@ == "docs/"@ + file@,
{
    let mut r = "docs/".to_owned();
    r.append(file);
    r
}

} // verus!
