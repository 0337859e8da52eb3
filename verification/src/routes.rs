//! What the HTTP surface decides before and after it calls the registry:
//! where a request is redirected, which resource a path names, and whether the
//! index may be read by a protocol.

use vstd::prelude::*;
use vstd::string::*;
use crate::content::{extension_of, get_content_type, media_type_of};
use crate::error::{error_invalid_request, error_not_found, specialize, ApiError, ErrorKind};
use crate::names::{is_digit, is_letter};
use crate::text::{
    bytes_are, bytes_of, has_prefix, lemma_ascii_text_has_ascii_bytes, same_text, starts_with,
    strip_known_prefix, strip_prefix, text_of, DOT, HYPHEN, UNDERSCORE,
};

verus! {

/// The package that a path names.
#[derive(Clone, Debug)]
pub struct PathInfoCrate {
    /// The name of the package.
    pub package: String,
}

/// The version of a package that a path names.
#[derive(Clone, Debug)]
pub struct PathInfoCrateVersion {
    /// The name of the package.
    pub package: String,
    /// The version.
    pub version: String,
}

/// The rights asked for a new token.
#[derive(Clone, Copy, Debug, PartialEq, Eq, Structural)]
pub struct CreateTokenQuery {
    /// Whether the token may write.
    pub can_write: bool,
    /// Whether the token may administer.
    pub can_admin: bool,
}

/// A search as a request states it.
#[derive(Clone, Debug)]
pub struct SearchForm {
    /// The text searched for.
    pub q: String,
    /// The number of results wanted on a page.
    pub per_page: Option<usize>,
}

/// A byte that a percent-encoding leaves as it is: an ASCII letter or digit,
/// `-`, `.`, `_` or `~`.
pub open spec fn is_unreserved(b: u8) -> bool {
    is_letter(b) || is_digit(b) || b == HYPHEN || b == DOT || b == UNDERSCORE || b == 0x7e
}

/// The hexadecimal digit of a number below sixteen, with capitals.
pub open spec fn hex_digit(d: u8) -> char {
    if d < 10 {
        (0x30 + d) as char
    } else {
        (0x41 - 10 + d) as char
    }
}

/// The percent-encoding of bytes: each unreserved byte as it is, every other
/// byte as a percent sign and its two hexadecimal digits.
pub open spec fn percent_encoded(bytes: Seq<u8>) -> Seq<char>
    decreases bytes.len(),
{
    if bytes.len() == 0 {
        Seq::empty()
    } else {
        let b = bytes.last();
        percent_encoded(bytes.drop_last()) + (if is_unreserved(b) {
            seq![b as char]
        } else {
            seq!['%', hex_digit(b / 16), hex_digit(b % 16)]
        })
    }
}

/// Percent-encodes a text for use in a URL. The body calls
/// `urlencoding::encode`, which walks the bytes of the text, copies the ASCII
/// letters and digits and `-`, `.`, `_`, `~`, and writes every other byte as
/// `%` and two capital hexadecimal digits.
#[verifier::external_body]
fn url_encode(text: &str) -> (r: String)
    ensures
        r@ == percent_encoded(text.spec_bytes()),
{
    urlencoding::encode(text).into_owned()
}

/// The address of the web application, to which the root redirects.
pub fn root_redirect_target(web_public_uri: &str) -> (r: String)
    ensures
        r@ == web_public_uri@ + "/webapp/index.html"@,
{
    let mut r = web_public_uri.to_owned();
    r.append("/webapp/index.html");
    r
}

/// The address of the login page of the identity provider, with the
/// parameters of an authorization request: the address to come back to, the
/// client and the scope percent-encoded, the nonce and the state as given.
pub fn auth_redirect_target(
    oauth_login_uri: &str,
    web_public_uri: &str,
    oauth_client_id: &str,
    oauth_client_scope: &str,
    nonce: &str,
    state: &str,
) -> (r: String)
    ensures
        r@ == oauth_login_uri@ + "?response_type=code&redirect_uri="@ + percent_encoded(
            bytes_of(web_public_uri@ + "/webapp/oauthcallback.html"@),
        ) + "&client_id="@ + percent_encoded(oauth_client_id.spec_bytes()) + "&scope="@
            + percent_encoded(oauth_client_scope.spec_bytes()) + "&nonce="@ + nonce@ + "&state="@
            + state@,
{
    let mut callback = web_public_uri.to_owned();
    callback.append("/webapp/oauthcallback.html");
    let callback = url_encode(callback.as_str());
    let client = url_encode(oauth_client_id);
    let scope = url_encode(oauth_client_scope);
    let mut r = oauth_login_uri.to_owned();
    r.append("?response_type=code&redirect_uri=");
    r.append(callback.as_str());
    r.append("&client_id=");
    r.append(client.as_str());
    r.append("&scope=");
    r.append(scope.as_str());
    r.append("&nonce=");
    r.append(nonce);
    r.append("&state=");
    r.append(state);
    r
}

/// The page of a package in the web application.
pub fn get_redirection_crate(info: &PathInfoCrate) -> (r: String)
    ensures
        r@ == "/webapp/crate.html?crate="@ + info.package@,
{
    let mut r = "/webapp/crate.html?crate=".to_owned();
    r.append(info.package.as_str());
    r
}

/// The page of a version of a package in the web application.
pub fn get_redirection_crate_version(info: &PathInfoCrateVersion) -> (r: String)
    ensures
        r@ == "/webapp/crate.html?crate="@ + info.package@ + "&version="@ + info.version@,
{
    let mut r = "/webapp/crate.html?crate=".to_owned();
    r.append(info.package.as_str());
    r.append("&version=");
    r.append(info.version.as_str());
    r
}

/// What a path under `/webapp/` asks for.
#[derive(Debug)]
pub enum WebappRoute<'a> {
    /// The page of a package: the request is redirected to the given address.
    CrateShortcut(String),
    /// The entry page, which only an authenticated caller is given; any other
    /// caller is sent to the login page.
    Index,
    /// The embedded resource of the given name.
    Resource(&'a str),
}

impl<'a> WebappRoute<'a> {
    /// The route that belongs to the part of a path after `/webapp/`.
    pub open spec fn is_for(self, rest: Seq<u8>) -> bool {
        if has_prefix(rest, "crates/".spec_bytes()) {
            self is CrateShortcut && self->CrateShortcut_0@ == "/webapp/crate.html?crate="@
                + text_of(rest.subrange("crates/".spec_bytes().len() as int, rest.len() as int))
        } else if rest == "index.html".spec_bytes() {
            self is Index
        } else {
            self is Resource && self->Resource_0.spec_bytes() == rest
        }
    }
}

/// Decides what a path under `/webapp/` asks for.
pub fn get_webapp_resource<'a>(path: &'a str) -> (route: WebappRoute<'a>)
    requires
        has_prefix(path.spec_bytes(), "/webapp/".spec_bytes()),
    ensures
        route.is_for(
            path.spec_bytes().subrange(
                "/webapp/".spec_bytes().len() as int,
                path.spec_bytes().len() as int,
            ),
        ),
{
    proof {
        reveal_strlit("/webapp/");
        reveal_strlit("crates/");
        lemma_ascii_text_has_ascii_bytes("/webapp/");
        lemma_ascii_text_has_ascii_bytes("crates/");
    }
    let rest = strip_known_prefix(path, "/webapp/");
    match strip_prefix(rest, "crates/") {
        Some(name) => {
            let mut target = "/webapp/crate.html?crate=".to_owned();
            target.append(name);
            WebappRoute::CrateShortcut(target)
        },
        None => {
            if bytes_are(rest.as_bytes(), "index.html") {
                WebappRoute::Index
            } else {
                WebappRoute::Resource(rest)
            }
        },
    }
}

/// Decides what a path under `/webapp/` asks for, for any path: one that
/// does not lie under `/webapp/` is not found.
pub fn find_webapp_resource<'a>(path: &'a str) -> (r: Result<WebappRoute<'a>, ApiError>)
    ensures
        r is Ok <==> has_prefix(path.spec_bytes(), "/webapp/".spec_bytes()),
        r is Ok ==> r->Ok_0.is_for(
            path.spec_bytes().subrange(
                "/webapp/".spec_bytes().len() as int,
                path.spec_bytes().len() as int,
            ),
        ),
        r is Err ==> r->Err_0.is_plain(ErrorKind::NotFound),
{
    if starts_with(path.as_bytes(), "/webapp/") {
        Ok(get_webapp_resource(path))
    } else {
        Err(error_not_found())
    }
}

/// A file of the documentation and the media type to serve it with.
#[derive(Debug)]
pub struct DocsResource<'a> {
    /// The path of the file below the root of the documentation.
    pub file: &'a str,
    /// The media type.
    pub content_type: &'static str,
}

/// The file that a path under `/docs/` names, and its media type, chosen by
/// the text after the last dot of the path.
pub fn get_docs_resource<'a>(path: &'a str) -> (r: DocsResource<'a>)
    requires
        has_prefix(path.spec_bytes(), "/docs/".spec_bytes()),
    ensures
        r.file.spec_bytes() == path.spec_bytes().subrange(
            "/docs/".spec_bytes().len() as int,
            path.spec_bytes().len() as int,
        ),
        r.content_type@ == media_type_of(extension_of(path.spec_bytes())),
{
    proof {
        reveal_strlit("/docs/");
        lemma_ascii_text_has_ascii_bytes("/docs/");
    }
    DocsResource { file: strip_known_prefix(path, "/docs/"), content_type: get_content_type(path) }
}

/// The file that a path under `/docs/` names, for any path: one that does
/// not lie under `/docs/` is not found.
pub fn find_docs_resource<'a>(path: &'a str) -> (r: Result<DocsResource<'a>, ApiError>)
    ensures
        r is Ok <==> has_prefix(path.spec_bytes(), "/docs/".spec_bytes()),
        r is Ok ==> r->Ok_0.file.spec_bytes() == path.spec_bytes().subrange(
            "/docs/".spec_bytes().len() as int,
            path.spec_bytes().len() as int,
        ) && r->Ok_0.content_type@ == media_type_of(extension_of(path.spec_bytes())),
        r is Err ==> r->Err_0.is_plain(ErrorKind::NotFound),
{
    if starts_with(path.as_bytes(), "/docs/") {
        Ok(get_docs_resource(path))
    } else {
        Err(error_not_found())
    }
}

/// Accepts an update of a user if the email of the path is that of the body;
/// otherwise the update is an invalid request.
pub fn api_v1_update_user(path_email: &str, body_email: &str) -> (r: Result<(), ApiError>)
    ensures
        r is Ok <==> path_email@ == body_email@,
        r is Err ==> r->Err_0.is_detailed(
            ErrorKind::InvalidRequest,
            "email in path and body are different"@,
        ),
{
    if same_text(path_email, body_email) {
        Ok(())
    } else {
        Err(
            specialize(
                error_invalid_request(),
                "email in path and body are different".to_owned(),
            ),
        )
    }
}

/// Whether the sparse protocol may serve a path: the configuration always,
/// because a client reads it first, and anything else only where the
/// protocol is allowed. What may not be served is not found.
pub fn index_serve(path: &str, allow_protocol_sparse: bool) -> (r: Result<(), ApiError>)
    ensures
        r is Ok <==> allow_protocol_sparse || path.spec_bytes() == "/config.json".spec_bytes(),
        r is Err ==> r->Err_0.is_plain(ErrorKind::NotFound),
{
    if allow_protocol_sparse || bytes_are(path.as_bytes(), "/config.json") {
        Ok(())
    } else {
        Err(error_not_found())
    }
}

/// Whether the references of the index are advertised: only where the Git
/// protocol is allowed, and only to a client that asks for the service
/// `git-upload-pack`. Anything else is not found.
pub fn index_serve_info_refs(allow_protocol_git: bool, service: Option<&str>) -> (r: Result<
    (),
    ApiError,
>)
    ensures
        r is Ok <==> allow_protocol_git && service is Some && service->0@ == "git-upload-pack"@,
        r is Err ==> r->Err_0.is_plain(ErrorKind::NotFound),
{
    if !allow_protocol_git {
        return Err(error_not_found());
    }
    match service {
        Some(name) => {
            if same_text(name, "git-upload-pack") {
                Ok(())
            } else {
                Err(error_not_found())
            }
        },
        None => Err(error_not_found()),
    }
}

/// Whether a pack of the index is served: only where the Git protocol is
/// allowed; elsewhere it is not found.
pub fn index_serve_git_upload_pack(allow_protocol_git: bool) -> (r: Result<(), ApiError>)
    ensures
        r is Ok <==> allow_protocol_git,
        r is Err ==> r->Err_0.is_plain(ErrorKind::NotFound),
{
    if allow_protocol_git {
        Ok(())
    } else {
        Err(error_not_found())
    }
}

/// The challenge that an error of the index carries, so that a client asks
/// its user for credentials.
pub fn index_serve_map_err(domain: &str) -> (r: String)
    ensures
        r@ == "Basic realm="@ + domain@,
{
    let mut r = "Basic realm=".to_owned();
    r.append(domain);
    r
}

} // verus!
