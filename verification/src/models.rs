//! Identity records: users and the sessions that prove their
//! authentication, with the inputs that create and update them.

use vstd::prelude::*;

use crate::errors::AppError;
use crate::hasher;
use crate::validation;
use crate::validation::{email_error, password_error, violation_of};

verus! {

/// An identity record. The password field always holds a self-describing
/// hash record, never the raw password.
#[derive(Debug, Clone)]
pub struct User {
    pub id: u64,
    pub email: String,
    pub password: String,
    pub created_at: i64,
    pub last_login: Option<i64>,
}

/// Proof of one authentication: an opaque bearer token with its validity
/// window and originating client address.
#[derive(Debug, Clone)]
pub struct UserSession {
    pub id: u64,
    pub user_id: u64,
    pub token: String,
    pub issued_at: i64,
    pub expires_at: i64,
    pub ip_address: String,
}

/// Registration input.
#[derive(Debug)]
pub struct CreateUserInput {
    pub username: String,
    pub email: String,
    pub password: String,
    pub bio: Option<String>,
}

/// Profile-update input: absent fields keep their stored value.
#[derive(Debug)]
pub struct UpdateUserInput {
    pub username: Option<String>,
    pub email: Option<String>,
    pub password: Option<String>,
    pub bio: Option<String>,
}

impl User {
    /// Builds a fresh identity record; the identifier and the clock are
    /// injected by the caller.
    pub fn new(id: u64, email: String, password: String, now: i64) -> (r: User)
        ensures
            r.id == id,
            r.email@ == email@,
            r.password@ == password@,
            r.created_at == now,
            r.last_login is None,
    {
        User { id, email, password, created_at: now, last_login: None }
    }

    /// Verifies a raw password against this record's stored hash.
    pub fn verify_password(&self, password: &str) -> (r: Result<bool, AppError>)
        ensures
            hasher::record_parses(self.password@) ==> (r matches Ok(m) && m
                == hasher::record_matches(password@, self.password@)),
            !hasher::record_parses(self.password@) ==> (r matches Err(e) && e matches AppError::Internal(..)),
    {
        hasher::verify_password(password, self.password.as_str())
    }
}

impl UserSession {
    /// Builds a fresh session; the identifier and the clock are injected
    /// by the caller. A session is born with its expiry after its issue.
    pub fn new(id: u64, user_id: u64, token: String, expires_at: i64, ip_address: String, now: i64) -> (r:
        UserSession)
        requires
            expires_at > now,
        ensures
            r.id == id,
            r.user_id == user_id,
            r.token@ == token@,
            r.issued_at == now,
            r.expires_at == expires_at,
            r.expires_at > r.issued_at,
            r.ip_address@ == ip_address@,
    {
        UserSession { id, user_id, token, issued_at: now, expires_at, ip_address }
    }

    /// Whether this session has passively expired at the given time.
    pub fn is_expired(&self, now: i64) -> (r: bool)
        ensures
            r == (now > self.expires_at),
    {
        now > self.expires_at
    }
}

impl CreateUserInput {
    /// Evaluates every field rule on this input and wraps the complete
    /// violation list, if any, into one `Validation` failure.
    pub fn validate_into_app_error(&self) -> (r: Result<(), AppError>)
        ensures
            r is Ok <==> validation::expected_credential_violations(
                self.email@,
                self.password@,
            ).len() == 0,
            r matches Err(e) ==> (e matches AppError::Validation(v) && validation::ves_are(
                v@,
                validation::expected_credential_violations(self.email@, self.password@),
            )),
    {
        validation::validate_credentials(self.email.as_str(), self.password.as_str())
    }
}

impl UpdateUserInput {
    /// The violations owed to this input: each rule runs only on the
    /// field it governs and only when that field is present.
    pub open spec fn expected_violations(&self) -> Seq<(Seq<char>, Seq<char>, Seq<char>)> {
        (match self.email {
            Some(e) => match email_error(e@) {
                Some(c) => seq![violation_of("email"@, c)],
                None => Seq::empty(),
            },
            None => Seq::empty(),
        }) + (match self.password {
            Some(p) => match password_error(p@) {
                Some(c) => seq![violation_of("password"@, c)],
                None => Seq::empty(),
            },
            None => Seq::empty(),
        })
    }

    /// Evaluates every rule on the fields this update carries, never
    /// stopping at the first failure, and wraps the complete violation
    /// list, if any, into one `Validation` failure.
    pub fn validate_into_app_error(&self) -> (r: Result<(), AppError>)
        ensures
            r is Ok <==> self.expected_violations().len() == 0,
            r matches Err(e) ==> (e matches AppError::Validation(v) && validation::ves_are(
                v@,
                self.expected_violations(),
            )),
    {
        let mut violations: Vec<crate::errors::ValidationError> = Vec::new();
        match &self.email {
            Some(e) => {
                if let Err(code) = validation::validate_email(e.as_str()) {
                    let ve = validation::make_validation_error("email", code, None);
                    violations.push(ve);
                }
            },
            None => {},
        }
        match &self.password {
            Some(p) => {
                if let Err(code) = validation::validate_password(p.as_str()) {
                    let ve = validation::make_validation_error("password", code, None);
                    violations.push(ve);
                }
            },
            None => {},
        }
        if violations.len() == 0 {
            Ok(())
        } else {
            Err(AppError::Validation(violations))
        }
    }
}

} // verus!
