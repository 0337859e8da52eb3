//! Who a caller is, from the credentials of a request.

use vstd::prelude::*;
use vstd::string::*;
use crate::error::{error_conflict, error_unauthorized, ApiError, ErrorKind};
use crate::text::{after, before, bytes_of, same_text, split_once, COLON};

verus! {

/// The user id of the registry when it talks to itself.
pub const SELF_SERVICE_UID: i64 = -1;

/// A caller whose identity is established.
#[derive(Clone, Debug)]
pub struct AuthenticatedUser {
    /// The id of the user.
    pub uid: i64,
    /// The email of the user.
    pub principal: String,
    /// Whether the caller may change what the user may change.
    pub can_write: bool,
    /// Whether the caller may administer the registry.
    pub can_admin: bool,
}

/// An API token as a request presents it.
#[derive(Clone, Debug)]
pub struct Token {
    /// The identifier of the token.
    pub id: String,
    /// The secret of the token.
    pub secret: String,
}

/// The credentials of a request.
#[derive(Clone, Debug)]
pub struct AuthData {
    /// The token of the `Authorization` header, if there is one.
    pub token: Option<Token>,
    /// The user of the session cookie, if the request has a valid one.
    pub session: Option<AuthenticatedUser>,
}

/// What remains to be done to authenticate a request.
#[derive(Clone, Debug)]
pub enum Authentication {
    /// The caller is the registry itself: nothing remains.
    SelfService(AuthenticatedUser),
    /// The token must be looked up among the stored tokens.
    StoredToken(Token),
    /// The user of the session must be looked up among the active users.
    Session(AuthenticatedUser),
}

impl Authentication {
    /// The outcome that `authenticate_token` owes for a token.
    pub open spec fn is_for_token(self, token: Token, login: Seq<char>, secret: Seq<char>) -> bool {
        if token.id@ == login && token.secret@ == secret {
            &&& self is SelfService
            &&& self->SelfService_0.uid == SELF_SERVICE_UID
            &&& self->SelfService_0.principal@ == login
            &&& !self->SelfService_0.can_write
            &&& !self->SelfService_0.can_admin
        } else {
            self is StoredToken && self->StoredToken_0 == token
        }
    }
}

/// Reads the token of an `Authorization` header: the identifier, a colon,
/// and the secret, which may hold further colons. A header without a colon
/// carries no token.
pub fn parse_authorization(header: &str) -> (r: Option<Token>)
    ensures
        r is Some <==> after(header.spec_bytes(), COLON) is Some,
        r is Some ==> {
            &&& bytes_of(r->0.id@) == before(
                header.spec_bytes(),
                COLON,
            )
            &&& bytes_of(r->0.secret@) == after(
                header.spec_bytes(),
                COLON,
            )->0
        },
{
    match split_once(header, COLON) {
        None => None,
        Some((id, secret)) => Some(Token { id: id.to_owned(), secret: secret.to_owned() }),
    }
}

/// Decides how a token is authenticated. The token of the registry itself,
/// given by `self_service_login` and `self_service_token`, identifies a reader
/// without the right to write or to administer; any other token is to be
/// looked up among the stored tokens.
pub fn authenticate_token(token: &Token, self_service_login: &str, self_service_token: &str) -> (r:
    Authentication)
    ensures
        r.is_for_token(*token, self_service_login@, self_service_token@),
{
    if same_text(token.id.as_str(), self_service_login) && same_text(
        token.secret.as_str(),
        self_service_token,
    ) {
        Authentication::SelfService(
            AuthenticatedUser {
                uid: SELF_SERVICE_UID,
                principal: self_service_login.to_owned(),
                can_write: false,
                can_admin: false,
            },
        )
    } else {
        Authentication::StoredToken(Token { id: token.id.clone(), secret: token.secret.clone() })
    }
}

/// Decides how a request is authenticated: by its token if it has one, else
/// by its session, and a request with neither is unauthorized.
pub fn authenticate(auth_data: &AuthData, self_service_login: &str, self_service_token: &str) -> (r:
    Result<Authentication, ApiError>)
    ensures
        match auth_data.token {
            Some(token) => r is Ok && r->Ok_0.is_for_token(
                token,
                self_service_login@,
                self_service_token@,
            ),
            None => match auth_data.session {
                Some(user) => r is Ok && r->Ok_0 is Session && r->Ok_0->Session_0 == user,
                None => r is Err && r->Err_0.is_plain(ErrorKind::Unauthorized),
            },
        },
{
    match &auth_data.token {
        Some(token) => Ok(authenticate_token(token, self_service_login, self_service_token)),
        None => match &auth_data.session {
            Some(user) => Ok(
                Authentication::Session(
                    AuthenticatedUser {
                        uid: user.uid,
                        principal: user.principal.clone(),
                        can_write: user.can_write,
                        can_admin: user.can_admin,
                    },
                ),
            ),
            None => Err(error_unauthorized()),
        },
    }
}

/// The user that a login by OAuth establishes: a session may do all that the
/// user may do.
pub fn session_user(uid: i64, email: &str) -> (user: AuthenticatedUser)
    ensures
        user.uid == uid,
        user.principal@ == email@,
        user.can_write,
        user.can_admin,
{
    AuthenticatedUser { uid, principal: email.to_owned(), can_write: true, can_admin: true }
}

/// A user of the registry.
#[derive(Clone, Debug)]
pub struct RegistryUser {
    /// The id of the user.
    pub id: i64,
    /// The email of the user, by which the user is known.
    pub email: String,
    /// The name shown for the user.
    pub name: String,
    /// Whether the user may use the registry.
    pub is_active: bool,
    /// Whether the user may administer the registry.
    pub is_admin: bool,
}

/// A token as the registry keeps it: with the fingerprint of its secret,
/// never the secret.
#[derive(Clone, Debug)]
pub struct RegistryUserToken {
    /// The id of the token.
    pub id: i64,
    /// The id of the user that the token belongs to.
    pub user: i64,
    /// The name that the user gave the token.
    pub name: String,
    /// The fingerprint of the secret.
    pub fingerprint: Vec<u8>,
    /// Whether the token may write.
    pub can_write: bool,
    /// Whether the token may administer.
    pub can_admin: bool,
}

/// Whether a token vouches for a user who presents a secret with the given
/// fingerprint.
pub open spec fn vouches(token: RegistryUserToken, user: RegistryUser, fingerprint: Seq<u8>) -> bool {
    token.user == user.id && token.fingerprint@ == fingerprint
}

/// The position of the first token that vouches for the user, or the number
/// of tokens if none does.
pub open spec fn first_vouching(
    tokens: Seq<RegistryUserToken>,
    user: RegistryUser,
    fingerprint: Seq<u8>,
) -> int
    decreases tokens.len(),
{
    if tokens.len() == 0 {
        0
    } else if vouches(tokens[0], user, fingerprint) {
        0
    } else {
        1 + first_vouching(tokens.drop_first(), user, fingerprint)
    }
}

/// Accepts a user of a session if the user is active; any other is
/// unauthorized.
pub fn check_is_user(user: &RegistryUser) -> (r: Result<(), ApiError>)
    ensures
        r is Ok <==> user.is_active,
        r is Err ==> r->Err_0.is_plain(ErrorKind::Unauthorized),
{
    if user.is_active {
        Ok(())
    } else {
        Err(error_unauthorized())
    }
}

/// Authenticates a user by a token. The user must be active, and one of the
/// stored tokens must belong to the user and have the fingerprint of the
/// secret that was presented; the first such token gives the caller its
/// rights. Anything else is unauthorized.
pub fn check_token(user: &RegistryUser, tokens: &Vec<RegistryUserToken>, fingerprint: &[u8]) -> (r:
    Result<AuthenticatedUser, ApiError>)
    ensures
        r is Ok <==> user.is_active && first_vouching(tokens@, *user, fingerprint@) < tokens@.len(),
        r is Ok ==> {
            let token = tokens@[first_vouching(tokens@, *user, fingerprint@)];
            &&& r->Ok_0.uid == user.id
            &&& r->Ok_0.principal == user.email
            &&& r->Ok_0.can_write == token.can_write
            &&& r->Ok_0.can_admin == token.can_admin
        },
        r is Err ==> r->Err_0.is_plain(ErrorKind::Unauthorized),
{
    if !user.is_active {
        return Err(error_unauthorized());
    }
    let mut i: usize = 0;
    assert(tokens@.subrange(0, tokens@.len() as int) =~= tokens@);
    while i < tokens.len()
        invariant
            i <= tokens@.len(),
            user.is_active,
            first_vouching(tokens@, *user, fingerprint@) == i + first_vouching(
                tokens@.subrange(i as int, tokens@.len() as int),
                *user,
                fingerprint@,
            ),
        decreases tokens@.len() - i,
    {
        let ghost rest = tokens@.subrange(i as int, tokens@.len() as int);
        assert(rest[0] == tokens@[i as int]);
        assert(rest.drop_first() =~= tokens@.subrange(i + 1, tokens@.len() as int));
        let token = &tokens[i];
        let same = constant_time_eq(token.fingerprint.as_slice(), fingerprint);
        if token.user == user.id && same {
            return Ok(
                AuthenticatedUser {
                    uid: user.id,
                    principal: user.email.clone(),
                    can_write: token.can_write,
                    can_admin: token.can_admin,
                },
            );
        }
        i += 1;
    }
    Err(error_unauthorized())
}

/// Accepts the deletion of a user who owns no package; a user who owns one
/// cannot be deleted, which is a conflict.
pub fn check_user_deletion(owned_packages: usize) -> (r: Result<(), ApiError>)
    ensures
        r is Ok <==> owned_packages == 0,
        r is Err ==> r->Err_0.is_plain(ErrorKind::Conflict),
{
    if owned_packages == 0 {
        Ok(())
    } else {
        Err(error_conflict())
    }
}

/// Whether two byte strings are equal, in a time that depends on their
/// lengths only: every pair of bytes is compared, whatever the earlier ones
/// gave.
pub fn constant_time_eq(a: &[u8], b: &[u8]) -> (r: bool)
    ensures
        r == (a@ == b@),
{
    if a.len() != b.len() {
        return false;
    }
    let n = a.len();
    let mut differences: u8 = 0;
    let mut i: usize = 0;
    while i < n
        invariant
            i <= n,
            n == a.len(),
            n == b.len(),
            (differences == 0) == (forall|j: int| 0 <= j < i ==> a@[j] == b@[j]),
        decreases n - i,
    {
        let x = a[i];
        let y = b[i];
        let before = differences;
        differences = differences | (x ^ y);
        assert((before | (x ^ y)) == 0 <==> (before == 0 && x == y)) by (bit_vector);
        i += 1;
    }
    if differences == 0 {
        assert(a@ =~= b@);
    }
    differences == 0
}

} // verus!
