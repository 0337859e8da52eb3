use cratery::auth::{
    authenticate, authenticate_token, constant_time_eq, parse_authorization, session_user, AuthData,
    Authentication, Token, SELF_SERVICE_UID,
};
use cratery::content::get_content_type;
use cratery::error::{
    download_error, error_already_exists, error_conflict, error_forbidden, error_internal, error_invalid_request,
    error_not_found, error_unauthorized, specialize, ErrorKind,
};
use cratery::routes::{
    api_v1_update_user, auth_redirect_target, find_docs_resource, find_webapp_resource, get_docs_resource,
    get_redirection_crate, get_redirection_crate_version, get_webapp_resource, index_serve,
    index_serve_git_upload_pack, index_serve_info_refs, index_serve_map_err, root_redirect_target,
    CreateTokenQuery, PathInfoCrate, PathInfoCrateVersion, SearchForm, WebappRoute,
};
use cratery::metadata::effective_per_page;

#[test]
fn content_types_by_extension() {
    assert_eq!(get_content_type("index.html"), "text/html");
    assert_eq!(get_content_type("style.css"), "text/css");
    assert_eq!(get_content_type("app.js"), "text/javascript");
    assert_eq!(get_content_type("a.gif"), "image/gif");
    assert_eq!(get_content_type("a.png"), "image/png");
    assert_eq!(get_content_type("a.jpeg"), "image/jpeg");
    assert_eq!(get_content_type("a.bmp"), "image/bmp");
    assert_eq!(get_content_type("a.webp"), "image/webp");
    assert_eq!(get_content_type("a.svg"), "image/svg+xml");
    assert_eq!(get_content_type("favicon.ico"), "image/x-icon");
}

#[test]
fn content_type_of_other_names() {
    assert_eq!(get_content_type(""), "application/octet-stream");
    assert_eq!(get_content_type("README"), "application/octet-stream");
    assert_eq!(get_content_type("a.jpg"), "application/octet-stream");
    assert_eq!(get_content_type("a.HTML"), "application/octet-stream");
    assert_eq!(get_content_type("a.html."), "application/octet-stream");
    assert_eq!(get_content_type("a.css.png"), "image/png");
    assert_eq!(get_content_type(".js"), "text/javascript");
    assert_eq!(get_content_type("docs/foo/0.1.0/x/foo/index.html"), "text/html");
    assert_eq!(get_content_type("v1.0/readme"), "application/octet-stream");
    assert_eq!(get_content_type("d\u{e9}j\u{e0}.svg"), "image/svg+xml");
    assert_eq!(get_content_type("a.\u{e9}"), "application/octet-stream");
}

#[test]
fn errors_map_to_statuses() {
    assert_eq!(error_invalid_request().http_status(), 400);
    assert_eq!(error_unauthorized().http_status(), 401);
    assert_eq!(error_forbidden().http_status(), 403);
    assert_eq!(error_not_found().http_status(), 404);
    assert_eq!(error_already_exists().http_status(), 409);
    assert_eq!(error_conflict().http_status(), 409);
    assert_eq!(error_internal().http_status(), 500);
    assert_eq!(error_not_found().kind, ErrorKind::NotFound);
    assert!(!error_not_found().message.is_empty());
    assert!(error_not_found().details.is_none());
    let detailed = specialize(error_conflict(), "last owner".to_string());
    assert_eq!(detailed.kind, ErrorKind::Conflict);
    assert_eq!(detailed.details.as_deref(), Some("last owner"));
    assert_eq!(detailed.message, error_conflict().message);
}

#[test]
fn download_reports_missing_authentication_as_refusal() {
    let error = download_error(specialize(error_unauthorized(), "no token".to_string()));
    assert_eq!(error.kind, ErrorKind::Forbidden);
    assert_eq!(error.http_status(), 403);
    assert_eq!(error.details.as_deref(), Some("no token"));
    assert_eq!(download_error(error_not_found()).http_status(), 404);
    assert_eq!(download_error(error_internal()).kind, ErrorKind::Internal);
    assert_eq!(download_error(error_forbidden()).kind, ErrorKind::Forbidden);
}

#[test]
fn registry_authenticates_itself_as_a_reader() {
    let token = Token { id: "self".to_string(), secret: "s3".to_string() };
    match authenticate_token(&token, "self", "s3") {
        Authentication::SelfService(user) => {
            assert_eq!(user.uid, -1);
            assert_eq!(user.uid, SELF_SERVICE_UID);
            assert_eq!(user.principal, "self");
            assert!(!user.can_write);
            assert!(!user.can_admin);
        }
        other => panic!("{:?}", other),
    }
}

#[test]
fn other_tokens_are_looked_up() {
    for (id, secret) in [("self", "wrong"), ("other", "s3"), ("", ""), ("alice", "abc")] {
        let token = Token { id: id.to_string(), secret: secret.to_string() };
        match authenticate_token(&token, "self", "s3") {
            Authentication::StoredToken(found) => {
                assert_eq!(found.id, id);
                assert_eq!(found.secret, secret);
            }
            other => panic!("{:?}", other),
        }
    }
}

#[test]
fn requests_are_authenticated_by_token_first() {
    let session = session_user(7, "alice@example.com");
    assert!(session.can_write && session.can_admin);
    assert_eq!(session.uid, 7);
    let both = AuthData {
        token: Some(Token { id: "t".to_string(), secret: "x".to_string() }),
        session: Some(session.clone()),
    };
    assert!(matches!(authenticate(&both, "self", "s3").unwrap(), Authentication::StoredToken(_)));
    let cookie = AuthData { token: None, session: Some(session) };
    match authenticate(&cookie, "self", "s3").unwrap() {
        Authentication::Session(user) => {
            assert_eq!(user.uid, 7);
            assert_eq!(user.principal, "alice@example.com");
            assert!(user.can_write && user.can_admin);
        }
        other => panic!("{:?}", other),
    }
    let nothing = AuthData { token: None, session: None };
    let error = authenticate(&nothing, "self", "s3").unwrap_err();
    assert_eq!(error.kind, ErrorKind::Unauthorized);
    assert_eq!(error.http_status(), 401);
}

#[test]
fn fingerprints_are_compared_whole() {
    assert!(constant_time_eq(b"", b""));
    assert!(constant_time_eq(b"abcdef", b"abcdef"));
    assert!(!constant_time_eq(b"abcdef", b"abcdeg"));
    assert!(!constant_time_eq(b"bbcdef", b"abcdef"));
    assert!(!constant_time_eq(b"abc", b"abcd"));
    assert!(!constant_time_eq(b"\x00", b"\x80"));
    assert!(!constant_time_eq(b"\x01\x02", b"\x02\x01"));
}

#[test]
fn redirections() {
    assert_eq!(root_redirect_target("https://r.example"), "https://r.example/webapp/index.html");
    assert_eq!(
        get_redirection_crate(&PathInfoCrate { package: "foo".to_string() }),
        "/webapp/crate.html?crate=foo"
    );
    assert_eq!(
        get_redirection_crate_version(&PathInfoCrateVersion {
            package: "foo".to_string(),
            version: "0.1.0".to_string()
        }),
        "/webapp/crate.html?crate=foo&version=0.1.0"
    );
    assert_eq!(index_serve_map_err("r.example"), "Basic realm=r.example");
}

#[test]
fn login_redirection_encodes_its_parameters() {
    let target = auth_redirect_target(
        "https://id.example/authorize",
        "https://r.example",
        "client id",
        "openid profile~e-mail_x.y",
        "NONCE",
        "STATE",
    );
    assert_eq!(
        target,
        "https://id.example/authorize?response_type=code\
         &redirect_uri=https%3A%2F%2Fr.example%2Fwebapp%2Foauthcallback.html\
         &client_id=client%20id&scope=openid%20profile~e-mail_x.y&nonce=NONCE&state=STATE"
    );
    let other = auth_redirect_target("u", "", "\u{e9}+/", "", "", "");
    assert_eq!(
        other,
        "u?response_type=code&redirect_uri=%2Fwebapp%2Foauthcallback.html&client_id=%C3%A9%2B%2F&scope=&nonce=&state="
    );
}

#[test]
fn paths_of_the_web_application() {
    match get_webapp_resource("/webapp/crates/foo") {
        WebappRoute::CrateShortcut(target) => assert_eq!(target, "/webapp/crate.html?crate=foo"),
        other => panic!("{:?}", other),
    }
    match get_webapp_resource("/webapp/crates/") {
        WebappRoute::CrateShortcut(target) => assert_eq!(target, "/webapp/crate.html?crate="),
        other => panic!("{:?}", other),
    }
    match get_webapp_resource("/webapp/crates/d\u{e9}j\u{e0}") {
        WebappRoute::CrateShortcut(target) => assert_eq!(target, "/webapp/crate.html?crate=d\u{e9}j\u{e0}"),
        other => panic!("{:?}", other),
    }
    assert!(matches!(get_webapp_resource("/webapp/index.html"), WebappRoute::Index));
    assert!(matches!(get_webapp_resource("/webapp/"), WebappRoute::Resource("")));
    assert!(matches!(get_webapp_resource("/webapp/app.js"), WebappRoute::Resource("app.js")));
    assert!(matches!(get_webapp_resource("/webapp/crates"), WebappRoute::Resource("crates")));
    assert!(matches!(get_webapp_resource("/webapp/\u{e9}.png"), WebappRoute::Resource("\u{e9}.png")));
    assert!(matches!(find_webapp_resource("/webapp/index.html"), Ok(WebappRoute::Index)));
    assert_eq!(find_webapp_resource("/webapp").unwrap_err().kind, ErrorKind::NotFound);
    assert_eq!(find_webapp_resource("/docs/x").unwrap_err().kind, ErrorKind::NotFound);
}

#[test]
fn paths_of_the_documentation() {
    let resource = get_docs_resource("/docs/foo/0.1.0/x86_64-unknown-linux-gnu/foo/index.html");
    assert_eq!(resource.file, "foo/0.1.0/x86_64-unknown-linux-gnu/foo/index.html");
    assert_eq!(resource.content_type, "text/html");
    let resource = get_docs_resource("/docs/");
    assert_eq!(resource.file, "");
    assert_eq!(resource.content_type, "application/octet-stream");
    let resource = find_docs_resource("/docs/static/\u{e9}.svg").unwrap();
    assert_eq!(resource.file, "static/\u{e9}.svg");
    assert_eq!(resource.content_type, "image/svg+xml");
    assert_eq!(find_docs_resource("/doc/x").unwrap_err().kind, ErrorKind::NotFound);
    assert_eq!(find_docs_resource("docs/x").unwrap_err().http_status(), 404);
}

#[test]
fn user_update_needs_the_same_email_twice() {
    assert!(api_v1_update_user("a@example.com", "a@example.com").is_ok());
    let error = api_v1_update_user("a@example.com", "b@example.com").unwrap_err();
    assert_eq!(error.kind, ErrorKind::InvalidRequest);
    assert_eq!(error.details.as_deref(), Some("email in path and body are different"));
    assert!(api_v1_update_user("a@example.com", "A@example.com").is_err());
}

#[test]
fn configuration_is_always_served() {
    assert!(index_serve("/config.json", false).is_ok());
    assert!(index_serve("/config.json", true).is_ok());
    assert!(index_serve("/3/f/foo", true).is_ok());
    assert_eq!(index_serve("/3/f/foo", false).unwrap_err().kind, ErrorKind::NotFound);
    assert_eq!(index_serve("/config.jso", false).unwrap_err().kind, ErrorKind::NotFound);
    assert_eq!(index_serve("config.json", false).unwrap_err().kind, ErrorKind::NotFound);
}

#[test]
fn git_is_served_for_upload_pack_only() {
    assert!(index_serve_info_refs(true, Some("git-upload-pack")).is_ok());
    assert_eq!(index_serve_info_refs(false, Some("git-upload-pack")).unwrap_err().kind, ErrorKind::NotFound);
    assert_eq!(index_serve_info_refs(true, Some("git-receive-pack")).unwrap_err().kind, ErrorKind::NotFound);
    assert_eq!(index_serve_info_refs(true, None).unwrap_err().kind, ErrorKind::NotFound);
    assert!(index_serve_git_upload_pack(true).is_ok());
    assert_eq!(index_serve_git_upload_pack(false).unwrap_err().kind, ErrorKind::NotFound);
}

#[test]
fn request_forms() {
    let query = CreateTokenQuery { can_write: true, can_admin: false };
    assert!(query.can_write && !query.can_admin);
    let form = SearchForm { q: "ser".to_string(), per_page: Some(500) };
    assert_eq!(form.q, "ser");
    assert_eq!(effective_per_page(form.per_page), 100);
}

#[test]
fn authorization_header_is_an_identifier_and_a_secret() {
    let token = parse_authorization("alice@example.com:s3cr3t").unwrap();
    assert_eq!(token.id, "alice@example.com");
    assert_eq!(token.secret, "s3cr3t");
    let token = parse_authorization("a:b:c").unwrap();
    assert_eq!((token.id.as_str(), token.secret.as_str()), ("a", "b:c"));
    let token = parse_authorization(":").unwrap();
    assert_eq!((token.id.as_str(), token.secret.as_str()), ("", ""));
    let token = parse_authorization("\u{e9}t\u{e9}:\u{fc}ber:x").unwrap();
    assert_eq!((token.id.as_str(), token.secret.as_str()), ("\u{e9}t\u{e9}", "\u{fc}ber:x"));
    assert!(parse_authorization("").is_none());
    assert!(parse_authorization("Bearer abc").is_none());
}
