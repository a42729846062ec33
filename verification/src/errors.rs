//! Error taxonomy and responder: every internal failure is classified into
//! exactly one kind; each kind maps to a fixed HTTP status code, a stable
//! machine-readable error type tag, and an optional help text, assembled
//! into one canonical error envelope.

use vstd::prelude::*;

use crate::strutil::{dec_digits, push_u64_dec, str_eq};

verus! {

/// One field-level validation violation.
#[derive(Debug, Clone)]
pub struct ValidationError {
    pub field: String,
    pub code: String,
    pub message: String,
}

/// Whether two violations carry the same field, code and message.
pub open spec fn ve_eq(a: ValidationError, b: ValidationError) -> bool {
    a.field@ == b.field@ && a.code@ == b.code@ && a.message@ == b.message@
}

/// Whether two violation lists agree element by element.
pub open spec fn ve_seq_eq(a: Seq<ValidationError>, b: Seq<ValidationError>) -> bool {
    a.len() == b.len() && forall|i: int| 0 <= i < a.len() ==> ve_eq(a[i], b[i])
}

/// Tagged union of failure kinds. Terminal: always converted to a response
/// and discarded. Only `Validation` carries a structured payload.
#[derive(Debug)]
pub enum AppError {
    Authentication(String),
    Authorization(String),
    Validation(Vec<ValidationError>),
    NotFound(String),
    Conflict(String),
    Database { source: String, context: Option<String> },
    RateLimit(u64),
    ExternalService { service: String, message: String, status: Option<u16> },
    InvalidInput(String),
    Internal(String),
}

/// The bare kind of an [`AppError`], without its payload.
#[derive(Debug, Clone, Copy, PartialEq, Eq, Structural)]
pub enum ErrorKind {
    Authentication,
    Authorization,
    Validation,
    NotFound,
    Conflict,
    Database,
    RateLimit,
    ExternalService,
    InvalidInput,
    Internal,
}

/// The status code owed to each failure kind.
pub open spec fn kind_status(k: ErrorKind) -> u16 {
    match k {
        ErrorKind::Authentication => 401,
        ErrorKind::Authorization => 403,
        ErrorKind::Validation => 400,
        ErrorKind::NotFound => 404,
        ErrorKind::Conflict => 409,
        ErrorKind::Database => 500,
        ErrorKind::RateLimit => 429,
        ErrorKind::ExternalService => 502,
        ErrorKind::InvalidInput => 400,
        ErrorKind::Internal => 500,
    }
}

/// The stable wire tag of each failure kind.
pub open spec fn kind_type_tag(k: ErrorKind) -> Seq<char> {
    match k {
        ErrorKind::Authentication => "authentication_error"@,
        ErrorKind::Authorization => "authorization_error"@,
        ErrorKind::Validation => "validation_error"@,
        ErrorKind::NotFound => "not_found"@,
        ErrorKind::Conflict => "conflict"@,
        ErrorKind::Database => "database_error"@,
        ErrorKind::RateLimit => "rate_limit_error"@,
        ErrorKind::ExternalService => "external_service_error"@,
        ErrorKind::InvalidInput => "invalid_input"@,
        ErrorKind::Internal => "internal_error"@,
    }
}

/// The help text owed to each failure kind, if any.
pub open spec fn kind_help(k: ErrorKind) -> Option<Seq<char>> {
    match k {
        ErrorKind::Authentication => Some("Please check your credentials and try again"@),
        ErrorKind::Authorization => Some("You don't have permission to perform this action"@),
        ErrorKind::Validation => Some("Please check the input requirements"@),
        ErrorKind::NotFound => None,
        ErrorKind::Conflict => None,
        ErrorKind::Database => Some("If the problem persists, please contact support"@),
        ErrorKind::RateLimit => Some("Please try again later"@),
        ErrorKind::ExternalService => Some("The service is temporarily unavailable"@),
        ErrorKind::InvalidInput => Some("Please check your input and try again"@),
        ErrorKind::Internal => Some("If the problem persists, please contact support"@),
    }
}

impl AppError {
    /// The kind this failure was classified into.
    pub open spec fn spec_kind(&self) -> ErrorKind {
        match self {
            AppError::Authentication(..) => ErrorKind::Authentication,
            AppError::Authorization(..) => ErrorKind::Authorization,
            AppError::Validation(..) => ErrorKind::Validation,
            AppError::NotFound(..) => ErrorKind::NotFound,
            AppError::Conflict(..) => ErrorKind::Conflict,
            AppError::Database { .. } => ErrorKind::Database,
            AppError::RateLimit(..) => ErrorKind::RateLimit,
            AppError::ExternalService { .. } => ErrorKind::ExternalService,
            AppError::InvalidInput(..) => ErrorKind::InvalidInput,
            AppError::Internal(..) => ErrorKind::Internal,
        }
    }

    pub open spec fn spec_status_code(&self) -> u16 {
        kind_status(self.spec_kind())
    }

    /// The human-readable message of this failure.
    pub open spec fn spec_message(&self) -> Seq<char> {
        match self {
            AppError::Authentication(m) => "Authentication error: "@ + m@,
            AppError::Authorization(m) => "Authorization error: "@ + m@,
            AppError::Validation(..) => "Validation error: one or more fields are invalid"@,
            AppError::NotFound(m) => "Not found: "@ + m@,
            AppError::Conflict(m) => "Conflict: "@ + m@,
            AppError::Database { source, .. } => "Database error: "@ + source@,
            AppError::RateLimit(secs) => "Rate limit exceeded. Try again in "@
                + dec_digits(*secs as int) + " seconds"@,
            AppError::ExternalService { service, message, .. } => "External service error: "@
                + service@ + " - "@ + message@,
            AppError::InvalidInput(m) => "Invalid input: "@ + m@,
            AppError::Internal(..) => "Internal server error"@,
        }
    }

    pub fn kind(&self) -> (r: ErrorKind)
        ensures
            r == self.spec_kind(),
    {
        match self {
            AppError::Authentication(..) => ErrorKind::Authentication,
            AppError::Authorization(..) => ErrorKind::Authorization,
            AppError::Validation(..) => ErrorKind::Validation,
            AppError::NotFound(..) => ErrorKind::NotFound,
            AppError::Conflict(..) => ErrorKind::Conflict,
            AppError::Database { .. } => ErrorKind::Database,
            AppError::RateLimit(..) => ErrorKind::RateLimit,
            AppError::ExternalService { .. } => ErrorKind::ExternalService,
            AppError::InvalidInput(..) => ErrorKind::InvalidInput,
            AppError::Internal(..) => ErrorKind::Internal,
        }
    }

    pub fn status_code(&self) -> (r: u16)
        ensures
            r == self.spec_status_code(),
    {
        match self.kind() {
            ErrorKind::Authentication => 401,
            ErrorKind::Authorization => 403,
            ErrorKind::Validation => 400,
            ErrorKind::NotFound => 404,
            ErrorKind::Conflict => 409,
            ErrorKind::Database => 500,
            ErrorKind::RateLimit => 429,
            ErrorKind::ExternalService => 502,
            ErrorKind::InvalidInput => 400,
            ErrorKind::Internal => 500,
        }
    }

    pub fn error_type(&self) -> (r: &'static str)
        ensures
            r@ == kind_type_tag(self.spec_kind()),
    {
        match self.kind() {
            ErrorKind::Authentication => "authentication_error",
            ErrorKind::Authorization => "authorization_error",
            ErrorKind::Validation => "validation_error",
            ErrorKind::NotFound => "not_found",
            ErrorKind::Conflict => "conflict",
            ErrorKind::Database => "database_error",
            ErrorKind::RateLimit => "rate_limit_error",
            ErrorKind::ExternalService => "external_service_error",
            ErrorKind::InvalidInput => "invalid_input",
            ErrorKind::Internal => "internal_error",
        }
    }

    pub fn help(&self) -> (r: Option<&'static str>)
        ensures
            match kind_help(self.spec_kind()) {
                Some(h) => r matches Some(s) && s@ == h,
                None => r is None,
            },
    {
        match self.kind() {
            ErrorKind::Authentication => Some("Please check your credentials and try again"),
            ErrorKind::Authorization => Some("You don't have permission to perform this action"),
            ErrorKind::Validation => Some("Please check the input requirements"),
            ErrorKind::NotFound => None,
            ErrorKind::Conflict => None,
            ErrorKind::Database => Some("If the problem persists, please contact support"),
            ErrorKind::RateLimit => Some("Please try again later"),
            ErrorKind::ExternalService => Some("The service is temporarily unavailable"),
            ErrorKind::InvalidInput => Some("Please check your input and try again"),
            ErrorKind::Internal => Some("If the problem persists, please contact support"),
        }
    }

    /// The human-readable message of this failure.
    pub fn message(&self) -> (r: String)
        ensures
            r@ == self.spec_message(),
    {
        match self {
            AppError::Authentication(m) => concat2("Authentication error: ", m.as_str()),
            AppError::Authorization(m) => concat2("Authorization error: ", m.as_str()),
            AppError::Validation(..) => String::from_str(
                "Validation error: one or more fields are invalid",
            ),
            AppError::NotFound(m) => concat2("Not found: ", m.as_str()),
            AppError::Conflict(m) => concat2("Conflict: ", m.as_str()),
            AppError::Database { source, .. } => concat2("Database error: ", source.as_str()),
            AppError::RateLimit(secs) => {
                let mut s = String::from_str("Rate limit exceeded. Try again in ");
                push_u64_dec(&mut s, *secs);
                s.append(" seconds");
                s
            },
            AppError::ExternalService { service, message, .. } => {
                let mut s = String::from_str("External service error: ");
                s.append(service.as_str());
                s.append(" - ");
                s.append(message.as_str());
                s
            },
            AppError::InvalidInput(m) => concat2("Invalid input: ", m.as_str()),
            AppError::Internal(..) => String::from_str("Internal server error"),
        }
    }

    /// Wraps a full violation list into a single failure.
    pub fn validation_error(errors: Vec<ValidationError>) -> (r: AppError)
        ensures
            r matches AppError::Validation(v) && v == errors,
    {
        AppError::Validation(errors)
    }

    /// Classifies a persistence-layer failure, keeping its context.
    pub fn database_error(error: String, context: String) -> (r: AppError)
        ensures
            r matches AppError::Database { source, context: c }
                && source@ == error@
                && (c matches Some(cs) && cs@ == context@),
    {
        AppError::Database { source: error, context: Some(context) }
    }

    /// Classifies a dependent-service failure.
    pub fn external_service_error(service: String, message: String, status: Option<u16>) -> (r:
        AppError)
        ensures
            r matches AppError::ExternalService { service: s, message: m, status: st }
                && s@ == service@
                && m@ == message@
                && st == status,
    {
        AppError::ExternalService { service, message, status }
    }
}

fn concat2(prefix: &str, rest: &str) -> (r: String)
    ensures
        r@ == prefix@ + rest@,
{
    let mut s = String::from_str(prefix);
    s.append(rest);
    s
}

/// The canonical error envelope: the one JSON shape every caller parses,
/// regardless of which internal error produced it.
pub struct ErrorResponse {
    pub error: String,
    pub message: String,
    pub status_code: u16,
    pub validation_errors: Option<Vec<ValidationError>>,
    pub error_code: Option<String>,
    pub help: Option<String>,
}

/// The machine-readable code owed to a status: `E` followed by the status
/// in decimal.
pub open spec fn spec_error_code(status: u16) -> Seq<char> {
    seq!['E'] + dec_digits(status as int)
}

/// Whether `r` is exactly the envelope owed to `e`.
pub open spec fn envelope_of(e: &AppError, r: ErrorResponse) -> bool {
    &&& r.error@ == kind_type_tag(e.spec_kind())
    &&& r.message@ == e.spec_message()
    &&& r.status_code == e.spec_status_code()
    &&& (match e {
        AppError::Validation(errs) => r.validation_errors matches Some(v) && ve_seq_eq(v@, errs@),
        _ => r.validation_errors is None,
    })
    &&& r.error_code matches Some(c) && c@ == spec_error_code(e.spec_status_code())
    &&& (match kind_help(e.spec_kind()) {
        Some(h) => r.help matches Some(s) && s@ == h,
        None => r.help is None,
    })
}

fn copy_validation_errors(v: &Vec<ValidationError>) -> (r: Vec<ValidationError>)
    ensures
        ve_seq_eq(r@, v@),
{
    let mut out: Vec<ValidationError> = Vec::new();
    let mut i: usize = 0;
    while i < v.len()
        invariant
            i <= v@.len(),
            out@.len() == i,
            forall|j: int| 0 <= j < i ==> ve_eq(out@[j], v@[j]),
        decreases v@.len() - i,
    {
        let e = &v[i];
        out.push(ValidationError {
            field: e.field.clone(),
            code: e.code.clone(),
            message: e.message.clone(),
        });
        i = i + 1;
    }
    out
}

impl AppError {
    /// Builds the canonical envelope for this failure.
    pub fn error_response(&self) -> (r: ErrorResponse)
        ensures
            envelope_of(self, r),
    {
        let status = self.status_code();
        let mut code = String::from_str("E");
        proof {
            reveal_strlit("E");
            assert(code@ =~= seq!['E']);
        }
        push_u64_dec(&mut code, status as u64);
        let help = match self.help() {
            Some(h) => Some(String::from_str(h)),
            None => None,
        };
        let validation_errors = match self {
            AppError::Validation(errs) => Some(copy_validation_errors(errs)),
            _ => None,
        };
        ErrorResponse {
            error: String::from_str(self.error_type()),
            message: self.message(),
            status_code: status,
            validation_errors,
            error_code: Some(code),
            help,
        }
    }
}

/// Recovers the failure kind named by a wire tag, if any.
pub open spec fn spec_tag_kind(s: Seq<char>) -> Option<ErrorKind> {
    if s == "authentication_error"@ { Some(ErrorKind::Authentication) }
    else if s == "authorization_error"@ { Some(ErrorKind::Authorization) }
    else if s == "validation_error"@ { Some(ErrorKind::Validation) }
    else if s == "not_found"@ { Some(ErrorKind::NotFound) }
    else if s == "conflict"@ { Some(ErrorKind::Conflict) }
    else if s == "database_error"@ { Some(ErrorKind::Database) }
    else if s == "rate_limit_error"@ { Some(ErrorKind::RateLimit) }
    else if s == "external_service_error"@ { Some(ErrorKind::ExternalService) }
    else if s == "invalid_input"@ { Some(ErrorKind::InvalidInput) }
    else if s == "internal_error"@ { Some(ErrorKind::Internal) }
    else { None }
}

/// Recovers the failure kind from a wire tag.
pub fn error_type_to_kind(s: &str) -> (r: Option<ErrorKind>)
    ensures
        r == spec_tag_kind(s@),
{
    if str_eq(s, "authentication_error") { Some(ErrorKind::Authentication) }
    else if str_eq(s, "authorization_error") { Some(ErrorKind::Authorization) }
    else if str_eq(s, "validation_error") { Some(ErrorKind::Validation) }
    else if str_eq(s, "not_found") { Some(ErrorKind::NotFound) }
    else if str_eq(s, "conflict") { Some(ErrorKind::Conflict) }
    else if str_eq(s, "database_error") { Some(ErrorKind::Database) }
    else if str_eq(s, "rate_limit_error") { Some(ErrorKind::RateLimit) }
    else if str_eq(s, "external_service_error") { Some(ErrorKind::ExternalService) }
    else if str_eq(s, "invalid_input") { Some(ErrorKind::InvalidInput) }
    else if str_eq(s, "internal_error") { Some(ErrorKind::Internal) }
    else { None }
}

/// Law: each wire tag names exactly the kind it was written for.
pub proof fn lemma_tag_identifies_kind(k: ErrorKind)
    ensures
        spec_tag_kind(kind_type_tag(k)) == Some(k),
{
    reveal_strlit("authentication_error");
    reveal_strlit("authorization_error");
    reveal_strlit("validation_error");
    reveal_strlit("not_found");
    reveal_strlit("conflict");
    reveal_strlit("database_error");
    reveal_strlit("rate_limit_error");
    reveal_strlit("external_service_error");
    reveal_strlit("invalid_input");
    reveal_strlit("internal_error");
    assert(("authentication_error"@).len() == 20);
    assert(("authorization_error"@).len() == 19);
    assert(("validation_error"@).len() == 16);
    assert(("not_found"@).len() == 9);
    assert(("conflict"@).len() == 8);
    assert(("database_error"@).len() == 14);
    assert(("rate_limit_error"@).len() == 16);
    assert(("external_service_error"@).len() == 22);
    assert(("invalid_input"@).len() == 13);
    assert(("internal_error"@).len() == 14);
    assert(("validation_error"@)[0] == 'v');
    assert(("rate_limit_error"@)[0] == 'r');
    assert(("database_error"@)[0] == 'd');
    assert(("internal_error"@)[0] == 'i');
}

/// Law: the envelope loses nothing that identifies the failure. The wire
/// tag recovers exactly the kind that produced it, and the kind in turn
/// fixes the status code, so a serialized envelope maps back to an
/// equivalent `(status_code, error_type)` pair; the violation list is
/// carried through verbatim by `error_response`.
pub proof fn lemma_envelope_round_trip(e: &AppError)
    ensures
        spec_tag_kind(kind_type_tag(e.spec_kind())) == Some(e.spec_kind()),
        kind_status(e.spec_kind()) == e.spec_status_code(),
{
    lemma_tag_identifies_kind(e.spec_kind());
}

} // verus!
