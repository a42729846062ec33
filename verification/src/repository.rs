//! The persistence contract for users and sessions, as a store with the
//! uniqueness guarantees the schema promises: identifiers and tokens are
//! unique, emails are unique ignoring ASCII letter case, every stored
//! password is a parseable hash record, and every session belongs to a
//! stored user. Uniqueness is enforced on insert, never by a caller's
//! check-then-insert.

use vstd::prelude::*;

use crate::errors::AppError;
use crate::hasher::record_parses;
use crate::models::{User, UserSession};
use crate::strutil::{dec_digits, eq_ignore_ascii_case, eq_ignore_case, push_u64_dec};

verus! {

/// Whether two user records carry the same content.
pub open spec fn user_eq(a: User, b: User) -> bool {
    a.id == b.id && a.email@ == b.email@ && a.password@ == b.password@ && a.created_at
        == b.created_at && a.last_login == b.last_login
}

/// Whether two session records carry the same content.
pub open spec fn session_eq(a: UserSession, b: UserSession) -> bool {
    a.id == b.id && a.user_id == b.user_id && a.token@ == b.token@ && a.issued_at == b.issued_at
        && a.expires_at == b.expires_at && a.ip_address@ == b.ip_address@
}

/// Whether some stored user owns this email, ignoring ASCII letter case.
pub open spec fn email_taken(users: Seq<User>, email: Seq<char>) -> bool {
    exists|i: int| 0 <= i < users.len() && eq_ignore_case(#[trigger] users[i].email@, email)
}

/// Whether some stored session carries this token.
pub open spec fn token_taken(sessions: Seq<UserSession>, token: Seq<char>) -> bool {
    exists|i: int| 0 <= i < sessions.len() && #[trigger] sessions[i].token@ == token
}

/// Whether some stored user has this identifier.
pub open spec fn user_id_exists(users: Seq<User>, id: u64) -> bool {
    exists|i: int| 0 <= i < users.len() && #[trigger] users[i].id == id
}

/// The store: rows plus the next fresh identifier of each table.
pub struct UserRepository {
    pub users: Vec<User>,
    pub sessions: Vec<UserSession>,
    pub next_user_id: u64,
    pub next_session_id: u64,
}

impl UserRepository {
    /// The store's schema guarantees.
    pub open spec fn wf(&self) -> bool {
        &&& forall|i: int|
            0 <= i < self.users@.len() ==> #[trigger] self.users@[i].id < self.next_user_id
        &&& forall|i: int, j: int|
            #![trigger self.users@[i].id, self.users@[j].id]
            0 <= i < j < self.users@.len() ==> self.users@[i].id != self.users@[j].id
        &&& forall|i: int, j: int|
            #![trigger self.users@[i].email, self.users@[j].email]
            0 <= i < j < self.users@.len() ==> !eq_ignore_case(
                self.users@[i].email@,
                self.users@[j].email@,
            )
        &&& forall|i: int|
            0 <= i < self.users@.len() ==> record_parses(#[trigger] self.users@[i].password@)
        &&& forall|i: int|
            0 <= i < self.sessions@.len() ==> #[trigger] self.sessions@[i].id
                < self.next_session_id
        &&& forall|i: int, j: int|
            #![trigger self.sessions@[i].id, self.sessions@[j].id]
            0 <= i < j < self.sessions@.len() ==> self.sessions@[i].id != self.sessions@[j].id
        &&& forall|i: int, j: int|
            #![trigger self.sessions@[i].token, self.sessions@[j].token]
            0 <= i < j < self.sessions@.len() ==> self.sessions@[i].token@
                != self.sessions@[j].token@
        &&& forall|i: int|
            0 <= i < self.sessions@.len() ==> user_id_exists(
                self.users@,
                #[trigger] self.sessions@[i].user_id,
            )
    }

    /// An empty store.
    pub fn new() -> (r: UserRepository)
        ensures
            r.wf(),
            r.users@.len() == 0,
            r.sessions@.len() == 0,
    {
        UserRepository { users: Vec::new(), sessions: Vec::new(), next_user_id: 1, next_session_id: 1 }
    }

    /// Looks a user up by identifier.
    pub fn find_by_id(&self, id: u64) -> (r: Option<User>)
        ensures
            match r {
                Some(u) => exists|i: int|
                    0 <= i < self.users@.len() && user_eq(u, #[trigger] self.users@[i])
                        && self.users@[i].id == id,
                None => !user_id_exists(self.users@, id),
            },
    {
        let mut i: usize = 0;
        while i < self.users.len()
            invariant
                i <= self.users@.len(),
                forall|j: int| 0 <= j < i ==> #[trigger] self.users@[j].id != id,
            decreases self.users@.len() - i,
        {
            if self.users[i].id == id {
                return Some(clone_user(&self.users[i]));
            }
            i = i + 1;
        }
        None
    }

    /// Looks a user up by email, ignoring ASCII letter case.
    pub fn find_by_email(&self, email: &str) -> (r: Option<User>)
        ensures
            match r {
                Some(u) => exists|i: int|
                    0 <= i < self.users@.len() && user_eq(u, #[trigger] self.users@[i])
                        && eq_ignore_case(self.users@[i].email@, email@),
                None => !email_taken(self.users@, email@),
            },
    {
        let mut i: usize = 0;
        while i < self.users.len()
            invariant
                i <= self.users@.len(),
                forall|j: int|
                    0 <= j < i ==> !eq_ignore_case(#[trigger] self.users@[j].email@, email@),
            decreases self.users@.len() - i,
        {
            if eq_ignore_ascii_case(self.users[i].email.as_str(), email) {
                return Some(clone_user(&self.users[i]));
            }
            i = i + 1;
        }
        None
    }

    /// The user table after stamping one user's last login.
    pub open spec fn touch_login(users: Seq<User>, id: u64, now: i64) -> Seq<User> {
        Seq::new(
            users.len(),
            |i: int|
                if users[i].id == id {
                    User {
                        id: users[i].id,
                        email: users[i].email,
                        password: users[i].password,
                        created_at: users[i].created_at,
                        last_login: Some(now),
                    }
                } else {
                    users[i]
                },
        )
    }

    /// Stamps the user's last login; unknown identifiers change nothing.
    pub fn update_last_login(&mut self, id: u64, now: i64)
        requires
            old(self).wf(),
        ensures
            final(self).wf(),
            final(self).users@ == UserRepository::touch_login(old(self).users@, id, now),
            final(self).sessions@ == old(self).sessions@,
            final(self).next_user_id == old(self).next_user_id,
            final(self).next_session_id == old(self).next_session_id,
    {
        let ghost orig = self.users@;
        let n = self.users.len();
        let mut idx: usize = 0;
        while idx < n && self.users[idx].id != id
            invariant
                n == self.users@.len(),
                idx <= n,
                orig == self.users@,
                forall|j: int| 0 <= j < idx ==> #[trigger] self.users@[j].id != id,
            decreases n - idx,
        {
            idx = idx + 1;
        }
        if idx == n {
            proof {
                assert(self.users@ =~= UserRepository::touch_login(orig, id, now));
            }
            return;
        }
        let u = self.users.remove(idx);
        let updated = User {
            id: u.id,
            email: u.email,
            password: u.password,
            created_at: u.created_at,
            last_login: Some(now),
        };
        self.users.insert(idx, updated);
        proof {
            assert(orig.remove(idx as int).insert(idx as int, updated) =~= orig.update(
                idx as int,
                updated,
            ));
            assert(self.users@ == orig.update(idx as int, updated));
            assert forall|j: int|
                0 <= j < orig.len() implies self.users@[j] == UserRepository::touch_login(
                orig,
                id,
                now,
            )[j] by {
                if j < idx {
                    assert(self.users@[j] == orig[j]);
                    assert(orig[j].id != id);
                } else if j == idx {
                    assert(self.users@[j] == updated);
                } else {
                    assert(self.users@[j] == orig[j]);
                }
            }
            assert(self.users@ =~= UserRepository::touch_login(orig, id, now));
            lemma_touch_login_wf(old(self), self, id, now);
        }
    }

    /// Inserts a new session row. The store enforces token uniqueness and
    /// the owning user's existence; violating either is a persistence
    /// failure, and the store is then unchanged.
    pub fn create_session(
        &mut self,
        user_id: u64,
        token: String,
        expires_at: i64,
        ip_address: String,
        now: i64,
    ) -> (r: Result<UserSession, AppError>)
        requires
            old(self).wf(),
            old(self).next_session_id < u64::MAX,
            expires_at > now,
        ensures
            final(self).wf(),
            final(self).users@ == old(self).users@,
            final(self).next_user_id == old(self).next_user_id,
            r is Ok <==> !token_taken(old(self).sessions@, token@) && user_id_exists(
                old(self).users@,
                user_id,
            ),
            match r {
                Ok(s) => {
                    &&& s.id == old(self).next_session_id
                    &&& s.user_id == user_id
                    &&& s.token@ == token@
                    &&& s.issued_at == now
                    &&& s.expires_at == expires_at
                    &&& s.ip_address@ == ip_address@
                    &&& final(self).sessions@.len() == old(self).sessions@.len() + 1
                    &&& forall|j: int|
                        0 <= j < old(self).sessions@.len() ==> final(self).sessions@[j] == old(
                            self,
                        ).sessions@[j]
                    &&& session_eq(final(self).sessions@.last(), s)
                    &&& final(self).next_session_id == old(self).next_session_id + 1
                },
                Err(e) => {
                    &&& e matches AppError::Database { .. }
                    &&& final(self).sessions@ == old(self).sessions@
                    &&& final(self).next_session_id == old(self).next_session_id
                },
            },
    {
        let n = self.sessions.len();
        let mut i: usize = 0;
        while i < n && !crate::strutil::str_eq(self.sessions[i].token.as_str(), token.as_str())
            invariant
                n == self.sessions@.len(),
                i <= n,
                forall|j: int| 0 <= j < i ==> #[trigger] self.sessions@[j].token@ != token@,
            decreases n - i,
        {
            i = i + 1;
        }
        if i < n {
            return Err(
                AppError::Database {
                    source: String::from_str("unique constraint violated: session token"),
                    context: None,
                },
            );
        }
        let mut k: usize = 0;
        let un = self.users.len();
        while k < un && self.users[k].id != user_id
            invariant
                un == self.users@.len(),
                k <= un,
                forall|j: int| 0 <= j < k ==> #[trigger] self.users@[j].id != user_id,
            decreases un - k,
        {
            k = k + 1;
        }
        if k == un {
            return Err(
                AppError::Database {
                    source: String::from_str("foreign key violated: session user"),
                    context: None,
                },
            );
        }
        let id = self.next_session_id;
        let session = UserSession {
            id,
            user_id,
            token,
            issued_at: now,
            expires_at,
            ip_address,
        };
        let copy = clone_session(&session);
        let ghost pre = *self;
        self.sessions.push(session);
        self.next_session_id = id + 1;
        proof {
            assert forall|a: int, b: int|
                #![trigger self.sessions@[a].token, self.sessions@[b].token]
                0 <= a < b < self.sessions@.len() implies self.sessions@[a].token@
                != self.sessions@[b].token@ by {
                if b == self.sessions@.len() - 1 {
                    assert(self.sessions@[a] == pre.sessions@[a]);
                }
            }
            assert forall|a: int, b: int|
                #![trigger self.sessions@[a].id, self.sessions@[b].id]
                0 <= a < b < self.sessions@.len() implies self.sessions@[a].id
                != self.sessions@[b].id by {
                if b == self.sessions@.len() - 1 {
                    assert(self.sessions@[a] == pre.sessions@[a]);
                    assert(pre.sessions@[a].id < pre.next_session_id);
                }
            }
            assert forall|a: int|
                0 <= a < self.sessions@.len() implies user_id_exists(
                self.users@,
                #[trigger] self.sessions@[a].user_id,
            ) by {
                if a < self.sessions@.len() - 1 {
                    assert(self.sessions@[a] == pre.sessions@[a]);
                    assert(user_id_exists(pre.users@, pre.sessions@[a].user_id));
                } else {
                    assert(self.users@[k as int].id == user_id);
                }
            }
        }
        Ok(copy)
    }

    /// The sessions of one user that are active at the given time.
    pub open spec fn active_pred(user_id: u64, now: i64) -> spec_fn(UserSession) -> bool {
        |s: UserSession| s.user_id == user_id && s.expires_at > now
    }

    /// Returns every session of the user whose expiry lies in the future,
    /// in storage order.
    pub fn get_active_sessions(&self, user_id: u64, now: i64) -> (r: Vec<UserSession>)
        ensures
            sessions_content_eq(
                r@,
                self.sessions@.filter(UserRepository::active_pred(user_id, now)),
            ),
    {
        let mut out: Vec<UserSession> = Vec::new();
        let n = self.sessions.len();
        let mut i: usize = 0;
        proof {
            assert(self.sessions@.take(0).filter(UserRepository::active_pred(user_id, now))
                =~= Seq::<UserSession>::empty());
        }
        while i < n
            invariant
                n == self.sessions@.len(),
                i <= n,
                sessions_content_eq(
                    out@,
                    self.sessions@.take(i as int).filter(
                        UserRepository::active_pred(user_id, now),
                    ),
                ),
            decreases n - i,
        {
            let ghost pred = UserRepository::active_pred(user_id, now);
            proof {
                broadcast use vstd::prelude::Seq::lemma_filter_push;

                assert(self.sessions@.take(i + 1) =~= self.sessions@.take(i as int).push(
                    self.sessions@[i as int],
                ));
                assert(self.sessions@.take(i as int).push(self.sessions@[i as int]).filter(pred)
                    == if pred(self.sessions@[i as int]) {
                    self.sessions@.take(i as int).filter(pred).push(self.sessions@[i as int])
                } else {
                    self.sessions@.take(i as int).filter(pred)
                });
            }
            let sref = &self.sessions[i];
            if sref.user_id == user_id && sref.expires_at > now {
                let copy = clone_session(sref);
                out.push(copy);
                proof {
                    assert(pred(self.sessions@[i as int]));
                }
            } else {
                proof {
                    assert(!pred(self.sessions@[i as int]));
                }
            }
            i = i + 1;
        }
        proof {
            assert(self.sessions@.take(n as int) =~= self.sessions@);
        }
        out
    }

    /// The session table after an invalidation: the row carrying the
    /// token, if any, has its expiry set to the given time.
    pub open spec fn invalidate_model(sessions: Seq<UserSession>, token: Seq<char>, now: i64) -> Seq<
        UserSession,
    > {
        Seq::new(
            sessions.len(),
            |i: int|
                if sessions[i].token@ == token {
                    UserSession {
                        id: sessions[i].id,
                        user_id: sessions[i].user_id,
                        token: sessions[i].token,
                        issued_at: sessions[i].issued_at,
                        expires_at: now,
                        ip_address: sessions[i].ip_address,
                    }
                } else {
                    sessions[i]
                },
        )
    }

    /// Sets the expiry of the session carrying this token to now.
    /// Idempotent; an unknown token changes nothing and is no error.
    pub fn invalidate_session(&mut self, token: &str, now: i64)
        requires
            old(self).wf(),
        ensures
            final(self).wf(),
            final(self).sessions@ == UserRepository::invalidate_model(
                old(self).sessions@,
                token@,
                now,
            ),
            final(self).users@ == old(self).users@,
            final(self).next_user_id == old(self).next_user_id,
            final(self).next_session_id == old(self).next_session_id,
    {
        let ghost orig = self.sessions@;
        let n = self.sessions.len();
        let mut idx: usize = 0;
        while idx < n && !crate::strutil::str_eq(self.sessions[idx].token.as_str(), token)
            invariant
                n == self.sessions@.len(),
                idx <= n,
                orig == self.sessions@,
                forall|j: int| 0 <= j < idx ==> #[trigger] self.sessions@[j].token@ != token@,
            decreases n - idx,
        {
            idx = idx + 1;
        }
        if idx == n {
            proof {
                assert(self.sessions@ =~= UserRepository::invalidate_model(orig, token@, now));
            }
            return;
        }
        let sess = self.sessions.remove(idx);
        let updated = UserSession {
            id: sess.id,
            user_id: sess.user_id,
            token: sess.token,
            issued_at: sess.issued_at,
            expires_at: now,
            ip_address: sess.ip_address,
        };
        self.sessions.insert(idx, updated);
        proof {
            assert(orig.remove(idx as int).insert(idx as int, updated) =~= orig.update(
                idx as int,
                updated,
            ));
            assert(self.sessions@ == orig.update(idx as int, updated));
            assert forall|j: int|
                0 <= j < orig.len() implies self.sessions@[j]
                == UserRepository::invalidate_model(orig, token@, now)[j] by {
                if j < idx {
                    assert(orig[j].token@ != token@);
                } else if j > idx {
                    assert(orig[idx as int].token@ == token@);
                    assert(orig[j].token@ != orig[idx as int].token@);
                }
            }
            assert(self.sessions@ =~= UserRepository::invalidate_model(orig, token@, now));
            lemma_invalidate_wf(old(self), self, token@, now);
        }
    }

    /// Looks an active session up by token; a session whose expiry has
    /// passed is treated as absent, never returned.
    pub fn find_session_by_token(&self, token: &str, now: i64) -> (r: Option<UserSession>)
        ensures
            match r {
                Some(s) => exists|i: int|
                    0 <= i < self.sessions@.len() && session_eq(s, #[trigger] self.sessions@[i])
                        && self.sessions@[i].token@ == token@ && self.sessions@[i].expires_at
                        > now,
                None => forall|i: int|
                    0 <= i < self.sessions@.len() ==> !(#[trigger] self.sessions@[i].token@
                        == token@ && self.sessions@[i].expires_at > now),
            },
    {
        let n = self.sessions.len();
        let mut i: usize = 0;
        while i < n
            invariant
                n == self.sessions@.len(),
                i <= n,
                forall|j: int|
                    0 <= j < i ==> !(#[trigger] self.sessions@[j].token@ == token@
                        && self.sessions@[j].expires_at > now),
            decreases n - i,
        {
            let sref = &self.sessions[i];
            if crate::strutil::str_eq(sref.token.as_str(), token) && sref.expires_at > now {
                return Some(clone_session(sref));
            }
            i = i + 1;
        }
        None
    }

    /// The user table after one row's email and stored hash are replaced
    /// where given and kept otherwise.
    pub open spec fn user_update_model(
        users: Seq<User>,
        id: u64,
        email: Option<String>,
        password: Option<String>,
    ) -> Seq<User> {
        Seq::new(
            users.len(),
            |i: int|
                if users[i].id == id {
                    User {
                        id: users[i].id,
                        email: match email {
                            Some(e) => e,
                            None => users[i].email,
                        },
                        password: match password {
                            Some(p) => p,
                            None => users[i].password,
                        },
                        created_at: users[i].created_at,
                        last_login: users[i].last_login,
                    }
                } else {
                    users[i]
                },
        )
    }

    /// Updates a user row: absent fields keep their stored value. Fails
    /// with `NotFound` when the identifier is unknown, and with
    /// `Conflict` when the new email already belongs to a different
    /// user, ignoring ASCII letter case; either failure leaves the store
    /// unchanged. A new stored password must already be a parseable hash
    /// record.
    pub fn update_user(&mut self, id: u64, email: Option<String>, password: Option<String>) -> (r:
        Result<User, AppError>)
        requires
            old(self).wf(),
            match password {
                Some(p) => record_parses(p@),
                None => true,
            },
        ensures
            final(self).wf(),
            final(self).sessions@ == old(self).sessions@,
            final(self).next_user_id == old(self).next_user_id,
            final(self).next_session_id == old(self).next_session_id,
            !user_id_exists(old(self).users@, id) ==> (r matches Err(e) && (e
                matches AppError::NotFound(m) && m@ == "User with ID "@ + dec_digits(id as int)
                + " not found"@)),
            r is Err ==> final(self).users@ == old(self).users@,
            r is Ok <==> user_id_exists(old(self).users@, id) && !email_conflicts(
                old(self).users@,
                id,
                email,
            ),
            r matches Err(e) ==> (e matches AppError::NotFound(..) || e
                matches AppError::Conflict(..)),
            r matches Err(e) && (e matches AppError::NotFound(..)) ==> !user_id_exists(
                old(self).users@,
                id,
            ),
            r matches Err(e) && (e matches AppError::Conflict(..)) ==> email_conflicts(
                old(self).users@,
                id,
                email,
            ),
            r matches Ok(u) ==> {
                &&& user_id_exists(old(self).users@, id)
                &&& final(self).users@ == UserRepository::user_update_model(
                    old(self).users@,
                    id,
                    email,
                    password,
                )
                &&& exists|i: int|
                    0 <= i < old(self).users@.len() && #[trigger] old(self).users@[i].id == id
                        && user_eq(u, final(self).users@[i])
            },
    {
        let ghost orig = self.users@;
        let n = self.users.len();
        let mut idx: usize = 0;
        while idx < n && self.users[idx].id != id
            invariant
                n == self.users@.len(),
                idx <= n,
                *self == *old(self),
                orig == self.users@,
                forall|j: int| 0 <= j < idx ==> #[trigger] self.users@[j].id != id,
            decreases n - idx,
        {
            idx = idx + 1;
        }
        if idx == n {
            let mut m = String::from_str("User with ID ");
            push_u64_dec(&mut m, id);
            m.append(" not found");
            return Err(AppError::NotFound(m));
        }
        match &email {
            Some(e) => {
                let mut j: usize = 0;
                while j < n
                    invariant
                        n == self.users@.len(),
                        j <= n,
                        *self == *old(self),
                        old(self).wf(),
                        idx < n,
                        self.users@[idx as int].id == id,
                        email == Some(*e),
                        forall|t: int|
                            0 <= t < j ==> !(eq_ignore_case(
                                #[trigger] self.users@[t].email@,
                                e@,
                            ) && self.users@[t].id != id),
                    decreases n - j,
                {
                    if eq_ignore_ascii_case(self.users[j].email.as_str(), e.as_str())
                        && self.users[j].id != id {
                        proof {
                            assert(eq_ignore_case(old(self).users@[j as int].email@, e@)
                                && old(self).users@[j as int].id != id);
                            assert(email_conflicts(old(self).users@, id, email));
                        }
                        return Err(
                            AppError::Conflict(String::from_str("email already registered")),
                        );
                    }
                    j = j + 1;
                }
            },
            None => {},
        }
        let u = self.users.remove(idx);
        let new_email = match email {
            Some(e) => e,
            None => u.email,
        };
        let new_password = match password {
            Some(p) => p,
            None => u.password,
        };
        let updated = User {
            id: u.id,
            email: new_email,
            password: new_password,
            created_at: u.created_at,
            last_login: u.last_login,
        };
        let copy = clone_user(&updated);
        self.users.insert(idx, updated);
        proof {
            let model = UserRepository::user_update_model(orig, id, email, password);
            assert(orig.remove(idx as int).insert(idx as int, self.users@[idx as int])
                =~= orig.update(idx as int, self.users@[idx as int]));
            assert forall|j: int| 0 <= j < orig.len() implies self.users@[j] == model[j] by {
                if j < idx {
                    assert(orig[j].id != id);
                } else if j > idx {
                    assert(orig[idx as int].id == id);
                    assert(orig[j].id != orig[idx as int].id);
                }
            }
            assert(self.users@ =~= model);
            assert forall|a: int, b: int|
                #![trigger self.users@[a].email, self.users@[b].email]
                0 <= a < b < self.users@.len() implies !eq_ignore_case(
                self.users@[a].email@,
                self.users@[b].email@,
            ) by {
                if a != idx && b != idx {
                    assert(self.users@[a] == orig[a] && self.users@[b] == orig[b]);
                    assert(!eq_ignore_case(orig[a].email@, orig[b].email@));
                } else {
                    let o = if a == idx { b } else { a };
                    assert(self.users@[o] == orig[o]);
                    match email {
                        Some(ref e2) => {
                            assert(!(eq_ignore_case(orig[o].email@, e2@) && orig[o].id != id));
                            assert(orig[o].id != orig[idx as int].id);
                        },
                        None => {
                            if a == idx {
                                assert(!eq_ignore_case(orig[a].email@, orig[b].email@));
                            } else {
                                assert(!eq_ignore_case(orig[a].email@, orig[b].email@));
                            }
                        },
                    }
                }
            }
            assert forall|i: int| 0 <= i < self.users@.len() implies #[trigger] self.users@[i].id
                < self.next_user_id by {
                assert(orig[i].id < self.next_user_id);
            }
            assert forall|i: int|
                0 <= i < self.sessions@.len() implies user_id_exists(
                self.users@,
                #[trigger] self.sessions@[i].user_id,
            ) by {
                let j = choose|j: int|
                    0 <= j < orig.len() && #[trigger] orig[j].id == self.sessions@[i].user_id;
                assert(self.users@[j].id == orig[j].id);
            }
        }
        Ok(copy)
    }

    /// The predicate keeping the rows another user owns.
    pub open spec fn keep_user(id: u64) -> spec_fn(User) -> bool {
        |u: User| u.id != id
    }

    /// The predicate keeping the sessions another user owns.
    pub open spec fn keep_session(id: u64) -> spec_fn(UserSession) -> bool {
        |s: UserSession| s.user_id != id
    }

    /// Removes a user and, with it, every session the user owned: account
    /// removal cascades to session invalidation. Returns whether a row
    /// was removed; removing an unknown identifier changes nothing.
    pub fn delete_user(&mut self, id: u64) -> (r: bool)
        requires
            old(self).wf(),
        ensures
            final(self).wf(),
            r == user_id_exists(old(self).users@, id),
            final(self).users@ == old(self).users@.filter(UserRepository::keep_user(id)),
            final(self).sessions@ == old(self).sessions@.filter(UserRepository::keep_session(id)),
            final(self).next_user_id == old(self).next_user_id,
            final(self).next_session_id == old(self).next_session_id,
    {
        let ghost uorig = self.users@;
        let ghost upred = UserRepository::keep_user(id);
        let mut existed = false;
        let mut i: usize = 0;
        let ghost mut k: int = 0;
        proof {
            broadcast use vstd::prelude::Seq::lemma_filter_len;

            assert(uorig.take(0).filter(upred).len() == 0);
            assert(self.users@ =~= uorig.take(0).filter(upred) + uorig.skip(0));
        }
        while i < self.users.len()
            invariant
                0 <= k <= uorig.len(),
                i == uorig.take(k).filter(upred).len(),
                self.users@ == uorig.take(k).filter(upred) + uorig.skip(k),
                upred == UserRepository::keep_user(id),
                existed == exists|j: int| 0 <= j < k && #[trigger] uorig[j].id == id,
                self.sessions@ == old(self).sessions@,
                self.next_user_id == old(self).next_user_id,
                self.next_session_id == old(self).next_session_id,
            decreases uorig.len() - k,
        {
            proof {
                broadcast use vstd::prelude::Seq::lemma_filter_push;

                assert(self.users@[i as int] == uorig.skip(k)[0]);
                assert(uorig.skip(k)[0] == uorig[k]);
                assert(uorig.take(k + 1) =~= uorig.take(k).push(uorig[k]));
            }
            if self.users[i].id == id {
                existed = true;
                let ghost cur = self.users@;
                let _removed = self.users.remove(i);
                proof {
                    assert(!upred(uorig[k]));
                    assert(uorig.take(k + 1).filter(upred) == uorig.take(k).filter(upred));
                    assert(cur.remove(i as int) =~= uorig.take(k + 1).filter(upred) + uorig.skip(
                        k + 1,
                    ));
                    k = k + 1;
                }
            } else {
                proof {
                    assert(upred(uorig[k]));
                    assert(uorig.take(k + 1).filter(upred) == uorig.take(k).filter(upred).push(
                        uorig[k],
                    ));
                    assert(self.users@ =~= uorig.take(k + 1).filter(upred) + uorig.skip(k + 1));
                    k = k + 1;
                }
                i = i + 1;
            }
        }
        proof {
            assert(uorig.skip(k).len() == 0);
            assert(self.users@ =~= uorig.take(k).filter(upred));
            assert(uorig.take(k) =~= uorig);
        }
        let ghost sorig = self.sessions@;
        let ghost spred = UserRepository::keep_session(id);
        let mut si: usize = 0;
        let ghost mut sk: int = 0;
        proof {
            broadcast use vstd::prelude::Seq::lemma_filter_len;

            assert(sorig.take(0).filter(spred).len() == 0);
            assert(self.sessions@ =~= sorig.take(0).filter(spred) + sorig.skip(0));
        }
        while si < self.sessions.len()
            invariant
                0 <= sk <= sorig.len(),
                si == sorig.take(sk).filter(spred).len(),
                self.sessions@ == sorig.take(sk).filter(spred) + sorig.skip(sk),
                spred == UserRepository::keep_session(id),
                self.users@ == old(self).users@.filter(UserRepository::keep_user(id)),
                sorig == old(self).sessions@,
                self.next_user_id == old(self).next_user_id,
                self.next_session_id == old(self).next_session_id,
            decreases sorig.len() - sk,
        {
            proof {
                broadcast use vstd::prelude::Seq::lemma_filter_push;

                assert(self.sessions@[si as int] == sorig.skip(sk)[0]);
                assert(sorig.skip(sk)[0] == sorig[sk]);
                assert(sorig.take(sk + 1) =~= sorig.take(sk).push(sorig[sk]));
            }
            if self.sessions[si].user_id == id {
                let ghost cur = self.sessions@;
                let _removed = self.sessions.remove(si);
                proof {
                    assert(!spred(sorig[sk]));
                    assert(sorig.take(sk + 1).filter(spred) == sorig.take(sk).filter(spred));
                    assert(cur.remove(si as int) =~= sorig.take(sk + 1).filter(spred)
                        + sorig.skip(sk + 1));
                    sk = sk + 1;
                }
            } else {
                proof {
                    assert(spred(sorig[sk]));
                    assert(sorig.take(sk + 1).filter(spred) == sorig.take(sk).filter(spred).push(
                        sorig[sk],
                    ));
                    assert(self.sessions@ =~= sorig.take(sk + 1).filter(spred) + sorig.skip(
                        sk + 1,
                    ));
                    sk = sk + 1;
                }
                si = si + 1;
            }
        }
        proof {
            assert(sorig.skip(sk).len() == 0);
            assert(self.sessions@ =~= sorig.take(sk).filter(spred));
            assert(sorig.take(sk) =~= sorig);
            lemma_filter_users_keeps_wf(old(self).users@, UserRepository::keep_user(id));
            lemma_filter_sessions_keeps_wf(old(self).sessions@, UserRepository::keep_session(id));
            assert forall|i2: int|
                0 <= i2 < self.users@.len() implies #[trigger] self.users@[i2].id
                < self.next_user_id by {
                let j = choose|j: int|
                    0 <= j < old(self).users@.len() && self.users@[i2] == #[trigger] old(
                        self,
                    ).users@[j];
                assert(old(self).users@[j].id < old(self).next_user_id);
            }
            assert forall|i2: int|
                0 <= i2 < self.sessions@.len() implies #[trigger] self.sessions@[i2].id
                < self.next_session_id by {
                let j = choose|j: int|
                    0 <= j < old(self).sessions@.len() && self.sessions@[i2] == #[trigger] old(
                        self,
                    ).sessions@[j];
                assert(old(self).sessions@[j].id < old(self).next_session_id);
            }
            assert forall|i2: int|
                0 <= i2 < self.sessions@.len() implies user_id_exists(
                self.users@,
                #[trigger] self.sessions@[i2].user_id,
            ) by {
                broadcast use vstd::prelude::Seq::lemma_filter_contains;

                let j = choose|j: int|
                    0 <= j < old(self).sessions@.len() && self.sessions@[i2] == #[trigger] old(
                        self,
                    ).sessions@[j];
                let t = choose|t: int|
                    0 <= t < old(self).users@.len() && #[trigger] old(self).users@[t].id == old(
                        self,
                    ).sessions@[j].user_id;
                assert(UserRepository::keep_session(id)(self.sessions@[i2]));
                assert(self.sessions@[i2].user_id != id);
                assert(UserRepository::keep_user(id)(old(self).users@[t]));
                assert(self.users@.contains(old(self).users@[t]));
                let w = choose|w: int|
                    0 <= w < self.users@.len() && self.users@[w] == old(self).users@[t];
                assert(self.users@[w].id == old(self).sessions@[j].user_id);
            }
            if !user_id_exists(old(self).users@, id) {
                assert(self.users@ =~= old(self).users@.filter(UserRepository::keep_user(id)));
            }
        }
        existed
    }

    /// The predicate keeping the rows still active at the given time.
    pub open spec fn keep_unexpired(now: i64) -> spec_fn(UserSession) -> bool {
        |s: UserSession| s.expires_at > now
    }

    /// Housekeeping: drops every expired session row. Never required for
    /// correctness, since lookups already treat expired rows as absent.
    pub fn prune_expired(&mut self, now: i64)
        requires
            old(self).wf(),
        ensures
            final(self).wf(),
            final(self).sessions@ == old(self).sessions@.filter(
                UserRepository::keep_unexpired(now),
            ),
            final(self).users@ == old(self).users@,
            final(self).next_user_id == old(self).next_user_id,
            final(self).next_session_id == old(self).next_session_id,
    {
        let ghost sorig = self.sessions@;
        let ghost spred = UserRepository::keep_unexpired(now);
        let mut si: usize = 0;
        let ghost mut sk: int = 0;
        proof {
            broadcast use vstd::prelude::Seq::lemma_filter_len;

            assert(sorig.take(0).filter(spred).len() == 0);
            assert(self.sessions@ =~= sorig.take(0).filter(spred) + sorig.skip(0));
        }
        while si < self.sessions.len()
            invariant
                0 <= sk <= sorig.len(),
                si == sorig.take(sk).filter(spred).len(),
                self.sessions@ == sorig.take(sk).filter(spred) + sorig.skip(sk),
                spred == UserRepository::keep_unexpired(now),
                self.users@ == old(self).users@,
                sorig == old(self).sessions@,
                self.next_user_id == old(self).next_user_id,
                self.next_session_id == old(self).next_session_id,
            decreases sorig.len() - sk,
        {
            proof {
                broadcast use vstd::prelude::Seq::lemma_filter_push;

                assert(self.sessions@[si as int] == sorig.skip(sk)[0]);
                assert(sorig.skip(sk)[0] == sorig[sk]);
                assert(sorig.take(sk + 1) =~= sorig.take(sk).push(sorig[sk]));
            }
            if self.sessions[si].expires_at <= now {
                let ghost cur = self.sessions@;
                let _removed = self.sessions.remove(si);
                proof {
                    assert(!spred(sorig[sk]));
                    assert(sorig.take(sk + 1).filter(spred) == sorig.take(sk).filter(spred));
                    assert(cur.remove(si as int) =~= sorig.take(sk + 1).filter(spred)
                        + sorig.skip(sk + 1));
                    sk = sk + 1;
                }
            } else {
                proof {
                    assert(spred(sorig[sk]));
                    assert(sorig.take(sk + 1).filter(spred) == sorig.take(sk).filter(spred).push(
                        sorig[sk],
                    ));
                    assert(self.sessions@ =~= sorig.take(sk + 1).filter(spred) + sorig.skip(
                        sk + 1,
                    ));
                    sk = sk + 1;
                }
                si = si + 1;
            }
        }
        proof {
            assert(sorig.skip(sk).len() == 0);
            assert(self.sessions@ =~= sorig.take(sk).filter(spred));
            assert(sorig.take(sk) =~= sorig);
            lemma_filter_sessions_keeps_wf(sorig, spred);
            assert forall|i2: int|
                0 <= i2 < self.sessions@.len() implies #[trigger] self.sessions@[i2].id
                < self.next_session_id by {
                let j = choose|j: int|
                    0 <= j < sorig.len() && self.sessions@[i2] == #[trigger] sorig[j];
                assert(sorig[j].id < old(self).next_session_id);
            }
            assert forall|i2: int|
                0 <= i2 < self.sessions@.len() implies user_id_exists(
                self.users@,
                #[trigger] self.sessions@[i2].user_id,
            ) by {
                let j = choose|j: int|
                    0 <= j < sorig.len() && self.sessions@[i2] == #[trigger] sorig[j];
                assert(user_id_exists(old(self).users@, sorig[j].user_id));
            }
        }
    }
}

proof fn lemma_touch_login_wf(pre: &UserRepository, post: &UserRepository, id: u64, now: i64)
    requires
        pre.wf(),
        post.users@ == UserRepository::touch_login(pre.users@, id, now),
        post.sessions@ == pre.sessions@,
        post.next_user_id == pre.next_user_id,
        post.next_session_id == pre.next_session_id,
    ensures
        post.wf(),
{
    assert forall|i: int| 0 <= i < post.users@.len() implies #[trigger] post.users@[i].id
        < post.next_user_id by {
        assert(pre.users@[i].id < pre.next_user_id);
    }
    assert forall|i: int|
        0 <= i < post.sessions@.len() implies user_id_exists(
        post.users@,
        #[trigger] post.sessions@[i].user_id,
    ) by {
        assert(user_id_exists(pre.users@, pre.sessions@[i].user_id));
        let j = choose|j: int|
            0 <= j < pre.users@.len() && #[trigger] pre.users@[j].id == pre.sessions@[i].user_id;
        assert(post.users@[j].id == pre.users@[j].id);
    }
}

/// Copies a user record field by field.
pub fn clone_user(u: &User) -> (r: User)
    ensures
        user_eq(r, *u),
{
    User {
        id: u.id,
        email: u.email.clone(),
        password: u.password.clone(),
        created_at: u.created_at,
        last_login: u.last_login,
    }
}

/// Copies a session record field by field.
pub fn clone_session(s: &UserSession) -> (r: UserSession)
    ensures
        session_eq(r, *s),
{
    UserSession {
        id: s.id,
        user_id: s.user_id,
        token: s.token.clone(),
        issued_at: s.issued_at,
        expires_at: s.expires_at,
        ip_address: s.ip_address.clone(),
    }
}


/// Whether a proposed new email already belongs to a different user,
/// ignoring ASCII letter case.
pub open spec fn email_conflicts(users: Seq<User>, id: u64, email: Option<String>) -> bool {
    match email {
        Some(e) => exists|j: int|
            0 <= j < users.len() && eq_ignore_case(#[trigger] users[j].email@, e@) && users[j].id
                != id,
        None => false,
    }
}

/// Whether two session tables carry the same content row by row.
pub open spec fn sessions_content_eq(a: Seq<UserSession>, b: Seq<UserSession>) -> bool {
    a.len() == b.len() && forall|i: int| 0 <= i < a.len() ==> session_eq(#[trigger] a[i], b[i])
}

proof fn lemma_invalidate_wf(pre: &UserRepository, post: &UserRepository, token: Seq<char>, now: i64)
    requires
        pre.wf(),
        post.sessions@ == UserRepository::invalidate_model(pre.sessions@, token, now),
        post.users@ == pre.users@,
        post.next_user_id == pre.next_user_id,
        post.next_session_id == pre.next_session_id,
    ensures
        post.wf(),
{
    assert forall|i: int| 0 <= i < post.sessions@.len() implies #[trigger] post.sessions@[i].id
        < post.next_session_id by {
        assert(pre.sessions@[i].id < pre.next_session_id);
    }
    assert forall|i: int|
        0 <= i < post.sessions@.len() implies user_id_exists(
        post.users@,
        #[trigger] post.sessions@[i].user_id,
    ) by {
        assert(user_id_exists(pre.users@, pre.sessions@[i].user_id));
    }
}

/// Law: invalidation is idempotent. Invalidating a token a second time at
/// the same instant leaves the session table exactly as the first
/// invalidation left it.
pub proof fn lemma_invalidate_idempotent(sessions: Seq<UserSession>, token: Seq<char>, now: i64)
    ensures
        UserRepository::invalidate_model(
            UserRepository::invalidate_model(sessions, token, now),
            token,
            now,
        ) == UserRepository::invalidate_model(sessions, token, now),
{
    let once = UserRepository::invalidate_model(sessions, token, now);
    let twice = UserRepository::invalidate_model(once, token, now);
    assert forall|i: int| 0 <= i < sessions.len() implies twice[i] == once[i] by {
    }
    assert(twice =~= once);
}


/// A table keeps its schema guarantees under any row filter: distinctness
/// survives, and every kept row already stood in the table.
proof fn lemma_filter_users_keeps_wf(s: Seq<User>, pred: spec_fn(User) -> bool)
    requires
        forall|a: int, b: int|
            #![trigger s[a].id, s[b].id]
            0 <= a < b < s.len() ==> s[a].id != s[b].id,
        forall|a: int, b: int|
            #![trigger s[a].email, s[b].email]
            0 <= a < b < s.len() ==> !eq_ignore_case(s[a].email@, s[b].email@),
        forall|a: int| 0 <= a < s.len() ==> record_parses(#[trigger] s[a].password@),
    ensures
        forall|a: int, b: int|
            #![trigger s.filter(pred)[a].id, s.filter(pred)[b].id]
            0 <= a < b < s.filter(pred).len() ==> s.filter(pred)[a].id != s.filter(pred)[b].id,
        forall|a: int, b: int|
            #![trigger s.filter(pred)[a].email, s.filter(pred)[b].email]
            0 <= a < b < s.filter(pred).len() ==> !eq_ignore_case(
                s.filter(pred)[a].email@,
                s.filter(pred)[b].email@,
            ),
        forall|a: int|
            0 <= a < s.filter(pred).len() ==> record_parses(#[trigger] s.filter(pred)[a].password@),
        forall|a: int|
            0 <= a < s.filter(pred).len() ==> exists|j: int|
                0 <= j < s.len() && #[trigger] s.filter(pred)[a] == s[j],
    decreases s.len(),
{
    reveal(Seq::filter);
    if s.len() > 0 {
        let head = s.drop_last();
        lemma_filter_users_keeps_wf(head, pred);
        assert forall|a: int, b: int| 0 <= a < b < head.len() implies (#[trigger] head[a].id
            != #[trigger] head[b].id && !eq_ignore_case(head[a].email@, head[b].email@)) by {
            assert(head[a] == s[a] && head[b] == s[b]);
        }
        let f = s.filter(pred);
        let fh = head.filter(pred);
        if pred(s.last()) {
            assert(f == fh.push(s.last()));
            assert forall|a: int|
                0 <= a < fh.len() implies #[trigger] fh[a].id != s.last().id && !eq_ignore_case(
                fh[a].email@,
                s.last().email@,
            ) by {
                let j = choose|j: int| 0 <= j < head.len() && #[trigger] fh[a] == head[j];
                assert(head[j] == s[j]);
                assert(s[j].id != s[s.len() - 1].id);
                assert(!eq_ignore_case(s[j].email@, s[s.len() - 1].email@));
            }
        } else {
            assert(f == fh);
        }
    }
}

/// The session table keeps its schema guarantees under any row filter.
proof fn lemma_filter_sessions_keeps_wf(s: Seq<UserSession>, pred: spec_fn(UserSession) -> bool)
    requires
        forall|a: int, b: int|
            #![trigger s[a].id, s[b].id]
            0 <= a < b < s.len() ==> s[a].id != s[b].id,
        forall|a: int, b: int|
            #![trigger s[a].token, s[b].token]
            0 <= a < b < s.len() ==> s[a].token@ != s[b].token@,
    ensures
        forall|a: int, b: int|
            #![trigger s.filter(pred)[a].id, s.filter(pred)[b].id]
            0 <= a < b < s.filter(pred).len() ==> s.filter(pred)[a].id != s.filter(pred)[b].id,
        forall|a: int, b: int|
            #![trigger s.filter(pred)[a].token, s.filter(pred)[b].token]
            0 <= a < b < s.filter(pred).len() ==> s.filter(pred)[a].token@ != s.filter(
                pred,
            )[b].token@,
        forall|a: int|
            0 <= a < s.filter(pred).len() ==> exists|j: int|
                0 <= j < s.len() && #[trigger] s.filter(pred)[a] == s[j],
    decreases s.len(),
{
    reveal(Seq::filter);
    if s.len() > 0 {
        let head = s.drop_last();
        lemma_filter_sessions_keeps_wf(head, pred);
        assert forall|a: int, b: int| 0 <= a < b < head.len() implies (#[trigger] head[a].id
            != #[trigger] head[b].id && head[a].token@ != head[b].token@) by {
            assert(head[a] == s[a] && head[b] == s[b]);
        }
        let f = s.filter(pred);
        let fh = head.filter(pred);
        if pred(s.last()) {
            assert(f == fh.push(s.last()));
            assert forall|a: int|
                0 <= a < fh.len() implies #[trigger] fh[a].id != s.last().id && fh[a].token@
                != s.last().token@ by {
                let j = choose|j: int| 0 <= j < head.len() && #[trigger] fh[a] == head[j];
                assert(head[j] == s[j]);
                assert(s[j].id != s[s.len() - 1].id);
                assert(s[j].token@ != s[s.len() - 1].token@);
            }
        } else {
            assert(f == fh);
        }
    }
}

} // verus!
