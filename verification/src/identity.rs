//! The identity service: registration, credential authentication, token
//! validation and logout, orchestrating the credential hasher and the
//! session store. Authentication failures are deliberately uniform: a
//! missing user and a wrong password produce the identical error, so a
//! caller cannot tell which part failed.

use vstd::prelude::*;

use crate::errors::AppError;
use crate::hasher;
use crate::hasher::{record_matches, record_parses};
use crate::models::{UpdateUserInput, User, UserSession};
use crate::repository::{
    clone_user, email_conflicts, email_taken, session_eq, token_taken, user_eq, user_id_exists,
    UserRepository,
};
use crate::strutil::{eq_ignore_case, hex_of, to_hex};

verus! {

/// The one message every failed authentication carries, whatever failed.
pub open spec fn auth_failure_message() -> Seq<char> {
    "Invalid email or password"@
}

/// Whether two stores hold the same tables and counters.
pub open spec fn repo_state_eq(a: &UserRepository, b: &UserRepository) -> bool {
    a.users@ == b.users@ && a.sessions@ == b.sessions@ && a.next_user_id == b.next_user_id
        && a.next_session_id == b.next_session_id
}

/// Whether the stored user at index `i` matches the given email,
/// ignoring ASCII letter case.
pub open spec fn is_user_for(users: Seq<User>, i: int, email: Seq<char>) -> bool {
    0 <= i < users.len() && eq_ignore_case(users[i].email@, email)
}

/// What a successful authentication hands to the surrounding layer.
#[derive(Debug, Clone)]
pub struct AuthResult {
    pub token: String,
    pub expires_at: i64,
}

/// Extracts the bearer-facing part of a session.
pub fn auth_result(s: &UserSession) -> (r: AuthResult)
    ensures
        r.token@ == s.token@,
        r.expires_at == s.expires_at,
{
    AuthResult { token: s.token.clone(), expires_at: s.expires_at }
}

/// Relies on rand's thread_rng and RngCore::fill_bytes: fills the buffer
/// from the thread-local cryptographically secure generator; nothing can
/// be promised of the values themselves.
#[verifier::external_body]
fn random_bytes_16() -> (r: Vec<u8>)
    ensures
        r@.len() == 16,
{
    let mut b = [0u8; 16];
    rand::RngCore::fill_bytes(&mut rand::thread_rng(), &mut b);
    b.to_vec()
}

/// Draws sixteen random bytes, 128 bits of entropy, and hex-encodes them
/// into an opaque bearer token.
pub fn generate_token() -> (r: String)
    ensures
        r@.len() == 32,
        exists|b: Seq<u8>| b.len() == 16 && r@ == hex_of(b),
{
    let bytes = random_bytes_16();
    to_hex(&bytes)
}

/// Registers a new identity: fails with `Conflict` exactly when the email
/// is already present, ignoring ASCII letter case; otherwise hashes the
/// password under a fresh salt and stores the user with no last login.
/// Only a hasher resource failure, surfaced as `Internal`, can keep a
/// fresh email out.
pub fn register(repo: &mut UserRepository, email: String, password: &str, now: i64) -> (r: Result<
    User,
    AppError,
>)
    requires
        old(repo).wf(),
        old(repo).next_user_id < u64::MAX,
    ensures
        final(repo).wf(),
        final(repo).sessions@ == old(repo).sessions@,
        final(repo).next_session_id == old(repo).next_session_id,
        r is Err ==> final(repo).users@ == old(repo).users@ && final(repo).next_user_id == old(
            repo,
        ).next_user_id,
        email_taken(old(repo).users@, email@) ==> (r matches Err(e) && (e matches AppError::Conflict(
            m,
        ) && m@ == "email already registered"@)),
        match r {
            Ok(u) => {
                &&& !email_taken(old(repo).users@, email@)
                &&& u.id == old(repo).next_user_id
                &&& u.email@ == email@
                &&& u.created_at == now
                &&& u.last_login is None
                &&& record_parses(u.password@)
                &&& record_matches(password@, u.password@)
                &&& final(repo).users@.len() == old(repo).users@.len() + 1
                &&& forall|j: int|
                    0 <= j < old(repo).users@.len() ==> final(repo).users@[j] == old(
                        repo,
                    ).users@[j]
                &&& user_eq(final(repo).users@.last(), u)
                &&& final(repo).next_user_id == old(repo).next_user_id + 1
            },
            Err(e) => {
                &&& email_taken(old(repo).users@, email@) ==> (e matches AppError::Conflict(..))
                &&& !email_taken(old(repo).users@, email@) ==> (e matches AppError::Internal(..))
            },
        },
{
    if let Some(_) = repo.find_by_email(email.as_str()) {
        return Err(AppError::Conflict(String::from_str("email already registered")));
    }
    let record = match hasher::hash_password(password) {
        Ok(rec) => rec,
        Err(e) => {
            return Err(e);
        },
    };
    let id = repo.next_user_id;
    let user = User::new(id, email, record, now);
    let copy = clone_user(&user);
    let ghost pre = *repo;
    repo.users.push(user);
    repo.next_user_id = id + 1;
    proof {
        assert forall|a: int, b: int|
            #![trigger repo.users@[a].id, repo.users@[b].id]
            0 <= a < b < repo.users@.len() implies repo.users@[a].id != repo.users@[b].id by {
            if b == repo.users@.len() - 1 {
                assert(repo.users@[a] == pre.users@[a]);
                assert(pre.users@[a].id < pre.next_user_id);
            }
        }
        assert forall|a: int, b: int|
            #![trigger repo.users@[a].email, repo.users@[b].email]
            0 <= a < b < repo.users@.len() implies !eq_ignore_case(
            repo.users@[a].email@,
            repo.users@[b].email@,
        ) by {
            if b == repo.users@.len() - 1 {
                assert(repo.users@[a] == pre.users@[a]);
                assert(!eq_ignore_case(pre.users@[a].email@, repo.users@[b].email@));
            }
        }
        assert forall|a: int|
            0 <= a < repo.sessions@.len() implies user_id_exists(
            repo.users@,
            #[trigger] repo.sessions@[a].user_id,
        ) by {
            assert(user_id_exists(pre.users@, pre.sessions@[a].user_id));
            let j = choose|j: int|
                0 <= j < pre.users@.len() && #[trigger] pre.users@[j].id
                    == pre.sessions@[a].user_id;
            assert(repo.users@[j] == pre.users@[j]);
        }
        assert forall|a: int|
            0 <= a < repo.users@.len() implies record_parses(
            #[trigger] repo.users@[a].password@,
        ) by {
            if a < pre.users@.len() {
                assert(repo.users@[a] == pre.users@[a]);
                assert(record_parses(pre.users@[a].password@));
            } else {
                assert(repo.users@[a].password@ == record@);
            }
        }
    }
    Ok(copy)
}

/// A syntactically valid hash record carrying the hasher's default
/// parameters and a fixed salt and digest. It stands for no user:
/// verifying a password against it burns the same derivation work as a
/// real verification, so the missing-user path of authentication takes
/// as long as the wrong-password path.
pub fn decoy_record() -> (r: &'static str) {
    "$argon2id$v=19$m=19456,t=2,p=1$AAAAAAAAAAAAAAAAAAAAAA$AAAAAAAAAAAAAAAAAAAAAAAAAAAAAAAAAAAAAAAAAAA"
}

/// Authenticates with a caller-supplied token: the deterministic core of
/// `authenticate`, exact for every token value. Fails uniformly on a
/// missing user or a wrong password, spending the same hashing work on
/// both paths; on good credentials it issues the session unless the
/// token is already taken, which is a transient persistence failure that
/// changes nothing.
pub fn authenticate_with_token(
    repo: &mut UserRepository,
    email: &str,
    password: &str,
    token: String,
    ip_address: String,
    now: i64,
    duration_secs: i64,
) -> (r: Result<UserSession, AppError>)
    requires
        old(repo).wf(),
        old(repo).next_session_id < u64::MAX,
        duration_secs > 0,
        now + duration_secs <= i64::MAX,
    ensures
        final(repo).wf(),
        !email_taken(old(repo).users@, email@) ==> (r matches Err(e) && (e
            matches AppError::Authentication(m) && m@ == auth_failure_message()) && repo_state_eq(final(repo), old(repo))),
        forall|i: int|
            is_user_for(old(repo).users@, i, email@) && !record_matches(
                password@,
                old(repo).users@[i].password@,
            ) ==> (r matches Err(e) && (e matches AppError::Authentication(m) && m@
                == auth_failure_message()) && repo_state_eq(final(repo), old(repo))),
        forall|i: int|
            is_user_for(old(repo).users@, i, email@) && record_matches(
                password@,
                old(repo).users@[i].password@,
            ) && token_taken(old(repo).sessions@, token@) ==> (r matches Err(e) && e
                matches AppError::Database { .. } && repo_state_eq(final(repo), old(repo))),
        forall|i: int|
            is_user_for(old(repo).users@, i, email@) && record_matches(
                password@,
                old(repo).users@[i].password@,
            ) && !token_taken(old(repo).sessions@, token@) ==> (r matches Ok(s) && {
                &&& s.user_id == old(repo).users@[i].id
                &&& s.token@ == token@
                &&& s.issued_at == now
                &&& s.expires_at == now + duration_secs
                &&& s.ip_address@ == ip_address@
                &&& final(repo).users@ == UserRepository::touch_login(
                    old(repo).users@,
                    old(repo).users@[i].id,
                    now,
                )
                &&& final(repo).sessions@.len() == old(repo).sessions@.len() + 1
                &&& forall|j: int|
                    0 <= j < old(repo).sessions@.len() ==> final(repo).sessions@[j] == old(
                        repo,
                    ).sessions@[j]
                &&& session_eq(final(repo).sessions@.last(), s)
                &&& final(repo).next_session_id == old(repo).next_session_id + 1
            }),
        r matches Err(e) ==> (e matches AppError::Authentication(..) || e
            matches AppError::Database { .. }),
        r matches Err(e) ==> repo_state_eq(final(repo), old(repo)),
        r matches Ok(s) ==> (exists|i: int|
            #![trigger old(repo).users@[i]]
            is_user_for(old(repo).users@, i, email@) && record_matches(
                password@,
                old(repo).users@[i].password@,
            ) && s.user_id == old(repo).users@[i].id && final(repo).users@
                == UserRepository::touch_login(old(repo).users@, old(repo).users@[i].id, now)),
        r matches Ok(s) ==> {
            &&& s.issued_at == now
            &&& s.expires_at == now + duration_secs
            &&& s.token@ == token@
            &&& s.ip_address@ == ip_address@
            &&& final(repo).sessions@.len() == old(repo).sessions@.len() + 1
            &&& session_eq(final(repo).sessions@.last(), s)
        },
{
    let user = match repo.find_by_email(email) {
        Some(u) => u,
        None => {
            // no such user: verify against the decoy so that timing does
            // not reveal whether the email exists
            let _burned = hasher::verify_password(password, decoy_record());
            return Err(AppError::Authentication(String::from_str("Invalid email or password")));
        },
    };
    proof {
        let i = choose|i: int|
            0 <= i < repo.users@.len() && user_eq(user, #[trigger] repo.users@[i])
                && eq_ignore_case(repo.users@[i].email@, email@);
        assert(record_parses(repo.users@[i].password@));
        assert(record_parses(user.password@));
    }
    let verified = match user.verify_password(password) {
        Ok(m) => m,
        Err(e) => {
            // unreachable: the store only holds parseable records
            return Err(e);
        },
    };
    if !verified {
        return Err(AppError::Authentication(String::from_str("Invalid email or password")));
    }
    let expires_at = now + duration_secs;
    let session = match repo.create_session(user.id, token, expires_at, ip_address, now) {
        Ok(s) => s,
        Err(e) => {
            return Err(e);
        },
    };
    repo.update_last_login(user.id, now);
    Ok(session)
}


/// Authenticates with the given credentials. On success it stamps the
/// user's last login and issues a session good for `duration_secs`
/// seconds, under a fresh random 128-bit token. A token that collides
/// with a stored one is retried with a fresh token up to three times;
/// collisions beyond that surface as `Internal`. A missing user and a
/// wrong password fail with the identical error.
pub fn authenticate(
    repo: &mut UserRepository,
    email: &str,
    password: &str,
    ip_address: String,
    now: i64,
    duration_secs: i64,
) -> (r: Result<UserSession, AppError>)
    requires
        old(repo).wf(),
        old(repo).next_session_id < u64::MAX,
        duration_secs > 0,
        now + duration_secs <= i64::MAX,
    ensures
        final(repo).wf(),
        !email_taken(old(repo).users@, email@) ==> (r matches Err(e) && (e
            matches AppError::Authentication(m) && m@ == auth_failure_message())
            && repo_state_eq(final(repo), old(repo))),
        forall|i: int|
            is_user_for(old(repo).users@, i, email@) && !record_matches(
                password@,
                old(repo).users@[i].password@,
            ) ==> (r matches Err(e) && (e matches AppError::Authentication(m) && m@
                == auth_failure_message()) && repo_state_eq(final(repo), old(repo))),
        forall|i: int|
            is_user_for(old(repo).users@, i, email@) && record_matches(
                password@,
                old(repo).users@[i].password@,
            ) ==> (r is Ok || (r matches Err(e) && e matches AppError::Internal(..))),
        r matches Ok(s) ==> {
            &&& exists|i: int|
                #![trigger old(repo).users@[i]]
                is_user_for(old(repo).users@, i, email@) && record_matches(
                    password@,
                    old(repo).users@[i].password@,
                ) && s.user_id == old(repo).users@[i].id && final(repo).users@
                    == UserRepository::touch_login(old(repo).users@, old(repo).users@[i].id, now)
            &&& s.issued_at == now
            &&& s.expires_at == now + duration_secs
            &&& s.token@.len() == 32
            &&& s.ip_address@ == ip_address@
            &&& final(repo).sessions@.len() == old(repo).sessions@.len() + 1
            &&& session_eq(final(repo).sessions@.last(), s)
        },
        r matches Err(e) ==> (e matches AppError::Authentication(..) || e
            matches AppError::Internal(..)),
        (r matches Err(e) && e matches AppError::Internal(..)) ==> repo_state_eq(
            final(repo),
            old(repo),
        ),
{
    let token1 = generate_token();
    let r1 = authenticate_with_token(
        repo,
        email,
        password,
        token1,
        ip_address.clone(),
        now,
        duration_secs,
    );
    let retry1 = match &r1 {
        Err(AppError::Database { .. }) => true,
        _ => false,
    };
    if !retry1 {
        return r1;
    }
    let token2 = generate_token();
    let r2 = authenticate_with_token(
        repo,
        email,
        password,
        token2,
        ip_address.clone(),
        now,
        duration_secs,
    );
    let retry2 = match &r2 {
        Err(AppError::Database { .. }) => true,
        _ => false,
    };
    if !retry2 {
        return r2;
    }
    let token3 = generate_token();
    let r3 = authenticate_with_token(
        repo,
        email,
        password,
        token3,
        ip_address,
        now,
        duration_secs,
    );
    let retry3 = match &r3 {
        Err(AppError::Database { .. }) => true,
        _ => false,
    };
    if !retry3 {
        return r3;
    }
    Err(AppError::Internal(String::from_str("could not issue a unique session token")))
}

/// Resolves the owner of an active session. Fails with `Authentication`
/// exactly when no stored session carries the token with its expiry in
/// the future; an expired session is never resolved, even if it was
/// never explicitly invalidated.
pub fn validate_token(repo: &UserRepository, token: &str, now: i64) -> (r: Result<User, AppError>)
    requires
        repo.wf(),
    ensures
        match r {
            Ok(u) => exists|i: int|
                0 <= i < repo.sessions@.len() && #[trigger] repo.sessions@[i].token@ == token@
                    && repo.sessions@[i].expires_at > now && (exists|j: int|
                    0 <= j < repo.users@.len() && user_eq(u, #[trigger] repo.users@[j])
                        && repo.users@[j].id == repo.sessions@[i].user_id),
            Err(e) => (e matches AppError::Authentication(m) && m@
                == "Invalid or expired session"@) && forall|i: int|
                0 <= i < repo.sessions@.len() ==> !(#[trigger] repo.sessions@[i].token@ == token@
                    && repo.sessions@[i].expires_at > now),
        },
{
    let session = match repo.find_session_by_token(token, now) {
        Some(s) => s,
        None => {
            return Err(AppError::Authentication(String::from_str("Invalid or expired session")));
        },
    };
    proof {
        let i = choose|i: int|
            0 <= i < repo.sessions@.len() && session_eq(session, #[trigger] repo.sessions@[i])
                && repo.sessions@[i].token@ == token@ && repo.sessions@[i].expires_at > now;
        assert(user_id_exists(repo.users@, repo.sessions@[i].user_id));
    }
    match repo.find_by_id(session.user_id) {
        Some(u) => Ok(u),
        None => {
            // unreachable: every stored session belongs to a stored user
            Err(AppError::Authentication(String::from_str("Invalid or expired session")))
        },
    }
}

/// Invalidates the session carrying the token by expiring it now. Never
/// fails: an unknown or already-invalidated token is a no-op success, so
/// a caller learns nothing about session existence; repeating the call
/// changes nothing further.
pub fn logout(repo: &mut UserRepository, token: &str, now: i64) -> (r: Result<(), AppError>)
    requires
        old(repo).wf(),
    ensures
        final(repo).wf(),
        r is Ok,
        final(repo).sessions@ == UserRepository::invalidate_model(
            old(repo).sessions@,
            token@,
            now,
        ),
        final(repo).users@ == old(repo).users@,
        final(repo).next_user_id == old(repo).next_user_id,
        final(repo).next_session_id == old(repo).next_session_id,
{
    repo.invalidate_session(token, now);
    Ok(())
}

/// The session table after every active session of one user is expired.
pub open spec fn logout_all_model(sessions: Seq<UserSession>, user_id: u64, now: i64) -> Seq<
    UserSession,
> {
    Seq::new(
        sessions.len(),
        |i: int|
            if sessions[i].user_id == user_id && sessions[i].expires_at > now {
                UserSession {
                    id: sessions[i].id,
                    user_id: sessions[i].user_id,
                    token: sessions[i].token,
                    issued_at: sessions[i].issued_at,
                    expires_at: now,
                    ip_address: sessions[i].ip_address,
                }
            } else {
                sessions[i]
            },
    )
}

/// Invalidates every active session of the user, as on a password change
/// or a compromise response. Never fails.
pub fn logout_all(repo: &mut UserRepository, user_id: u64, now: i64) -> (r: Result<(), AppError>)
    requires
        old(repo).wf(),
    ensures
        final(repo).wf(),
        r is Ok,
        final(repo).sessions@ == logout_all_model(old(repo).sessions@, user_id, now),
        final(repo).users@ == old(repo).users@,
        final(repo).next_user_id == old(repo).next_user_id,
        final(repo).next_session_id == old(repo).next_session_id,
{
    let ghost orig = repo.sessions@;
    let n = repo.sessions.len();
    let mut i: usize = 0;
    while i < n
        invariant
            n == repo.sessions@.len(),
            i <= n,
            orig == old(repo).sessions@,
            orig.len() == n,
            repo.users@ == old(repo).users@,
            repo.next_user_id == old(repo).next_user_id,
            repo.next_session_id == old(repo).next_session_id,
            forall|j: int|
                0 <= j < i ==> #[trigger] repo.sessions@[j] == logout_all_model(
                    orig,
                    user_id,
                    now,
                )[j],
            forall|j: int| i <= j < n ==> #[trigger] repo.sessions@[j] == orig[j],
        decreases n - i,
    {
        let active = repo.sessions[i].user_id == user_id && repo.sessions[i].expires_at > now;
        if active {
            let ghost cur = repo.sessions@;
            let sess = repo.sessions.remove(i);
            let updated = UserSession {
                id: sess.id,
                user_id: sess.user_id,
                token: sess.token,
                issued_at: sess.issued_at,
                expires_at: now,
                ip_address: sess.ip_address,
            };
            repo.sessions.insert(i, updated);
            proof {
                assert(cur.remove(i as int).insert(i as int, updated) =~= cur.update(
                    i as int,
                    updated,
                ));
                assert(repo.sessions@ == cur.update(i as int, updated));
            }
        }
        i = i + 1;
    }
    proof {
        assert(repo.sessions@ =~= logout_all_model(orig, user_id, now));
        lemma_logout_all_wf(old(repo), repo, user_id, now);
    }
    Ok(())
}

proof fn lemma_logout_all_wf(pre: &UserRepository, post: &UserRepository, user_id: u64, now: i64)
    requires
        pre.wf(),
        post.sessions@ == logout_all_model(pre.sessions@, user_id, now),
        post.users@ == pre.users@,
        post.next_user_id == pre.next_user_id,
        post.next_session_id == pre.next_session_id,
    ensures
        post.wf(),
{
    assert forall|i: int| 0 <= i < post.sessions@.len() implies #[trigger] post.sessions@[i].id
        < post.next_session_id by {
        assert(pre.sessions@[i].id < pre.next_session_id);
    }
    assert forall|i: int|
        0 <= i < post.sessions@.len() implies user_id_exists(
        post.users@,
        #[trigger] post.sessions@[i].user_id,
    ) by {
        assert(user_id_exists(pre.users@, pre.sessions@[i].user_id));
    }
}

/// Applies a profile update: the email and password fields replace the
/// stored values where given, with the password re-hashed under a fresh
/// salt; absent fields keep their stored values, and the input's other
/// fields have no column in the identity record. Fails with `NotFound`
/// for an unknown identifier and `Conflict` when the new email already
/// belongs to a different user.
pub fn update_user(repo: &mut UserRepository, id: u64, input: UpdateUserInput) -> (r: Result<
    User,
    AppError,
>)
    requires
        old(repo).wf(),
    ensures
        final(repo).wf(),
        final(repo).sessions@ == old(repo).sessions@,
        final(repo).next_user_id == old(repo).next_user_id,
        final(repo).next_session_id == old(repo).next_session_id,
        r is Err ==> final(repo).users@ == old(repo).users@,
        !user_id_exists(old(repo).users@, id) ==> (r matches Err(e) && (e
            matches AppError::NotFound(m) && m@ == "User with ID "@ + crate::strutil::dec_digits(
            id as int,
        ) + " not found"@)),
        r matches Err(e) ==> (e matches AppError::NotFound(..) || e matches AppError::Conflict(..)
            || e matches AppError::Internal(..)),
        r matches Err(e) && (e matches AppError::NotFound(..)) ==> !user_id_exists(
            old(repo).users@,
            id,
        ),
        r matches Err(e) && (e matches AppError::Conflict(..)) ==> email_conflicts(
            old(repo).users@,
            id,
            input.email,
        ),
        r matches Err(e) && (e matches AppError::Internal(..)) ==> input.password is Some,
        input.password is None ==> (r is Ok <==> user_id_exists(old(repo).users@, id)
            && !email_conflicts(old(repo).users@, id, input.email)),
        user_id_exists(old(repo).users@, id) && !email_conflicts(
            old(repo).users@,
            id,
            input.email,
        ) ==> (r is Ok || (r matches Err(e) && e matches AppError::Internal(..))),
        r matches Ok(u) ==> {
            &&& user_id_exists(old(repo).users@, id)
            &&& u.id == id
            &&& (input.email matches Some(e) ==> u.email@ == e@)
            &&& (input.password matches Some(p) ==> record_parses(u.password@) && record_matches(
                p@,
                u.password@,
            ))
            &&& exists|i: int|
                0 <= i < old(repo).users@.len() && #[trigger] old(repo).users@[i].id == id
                    && user_eq(u, final(repo).users@[i]) && (input.email is None ==> u.email@
                    == old(repo).users@[i].email@) && (input.password is None ==> u.password@
                    == old(repo).users@[i].password@) && u.created_at == old(
                    repo,
                ).users@[i].created_at && u.last_login == old(repo).users@[i].last_login
        },
{
    if repo.find_by_id(id).is_none() {
        let mut m = String::from_str("User with ID ");
        crate::strutil::push_u64_dec(&mut m, id);
        m.append(" not found");
        return Err(AppError::NotFound(m));
    }
    let hashed = match input.password {
        Some(p) => match hasher::hash_password(p.as_str()) {
            Ok(rec) => Some(rec),
            Err(e) => {
                return Err(e);
            },
        },
        None => None,
    };
    repo.update_user(id, input.email, hashed)
}

/// Law: once a registration has stored a user for an email, any further
/// registration attempt whose email is equal to it up to ASCII letter
/// case finds the email taken, and `register` then owes exactly a
/// `Conflict`: of two racing registrations for one email, at most one
/// can succeed.
pub proof fn lemma_register_conflict(users: Seq<User>, u: User, email2: Seq<char>)
    requires
        eq_ignore_case(u.email@, email2),
    ensures
        email_taken(users.push(u), email2),
{
    assert(users.push(u)[users.len() as int] == u);
    assert(eq_ignore_case(users.push(u)[users.len() as int].email@, email2));
}

} // verus!
