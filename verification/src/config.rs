//! Configuration assembled from environment data. Reading the process
//! environment is the surrounding program's job; it hands the variables
//! in as plain key-value pairs, and everything from lookup to number
//! parsing and connection-string assembly is done here.

use vstd::prelude::*;

use crate::strutil::{dec_digits, push_u64_dec, str_eq};
use crate::validation::{all_digits, is_digit_c};

verus! {

/// The value of the first pair carrying the key, if any.
pub open spec fn env_value(env: Seq<(String, String)>, key: Seq<char>) -> Option<Seq<char>>
    decreases env.len(),
{
    if env.len() == 0 {
        None
    } else if env[0].0@ == key {
        Some(env[0].1@)
    } else {
        env_value(env.skip(1), key)
    }
}

/// The numeric value of a digit string, most significant digit first.
pub open spec fn digits_value(s: Seq<char>) -> int
    decreases s.len(),
{
    if s.len() == 0 {
        0
    } else {
        digits_value(s.drop_last()) * 10 + (s.last() as u32 - 48)
    }
}

/// What parsing a port number owes: an optional plus sign, then one or
/// more decimal digits whose value fits in sixteen bits.
pub open spec fn parsed_u16(s: Seq<char>) -> Option<u16> {
    let t = if s.len() > 0 && s[0] == '+' {
        s.skip(1)
    } else {
        s
    };
    if t.len() >= 1 && all_digits(t) && digits_value(t) <= 65535 {
        Some(digits_value(t) as u16)
    } else {
        None
    }
}

proof fn lemma_digits_prefix_grows(t: Seq<char>, k: int)
    requires
        0 <= k <= t.len(),
        all_digits(t),
        digits_value(t.take(k)) > 65535,
    ensures
        digits_value(t) > 65535,
    decreases t.len() - k,
{
    if k < t.len() {
        assert(t.take(k + 1).drop_last() =~= t.take(k));
        assert(t.take(k + 1).last() == t[k]);
        assert(is_digit_c(t[k]));
        assert(digits_value(t.take(k + 1)) > 65535);
        lemma_digits_prefix_grows(t, k + 1);
    } else {
        assert(t.take(k) =~= t);
    }
}

/// Parses a sixteen-bit decimal number, with an optional leading plus.
pub fn parse_u16(s: &str) -> (r: Option<u16>)
    ensures
        r == parsed_u16(s@),
{
    let n = s.unicode_len();
    let start: usize = if n > 0 && s.get_char(0) == '+' {
        1
    } else {
        0
    };
    let ghost t = if s@.len() > 0 && s@[0] == '+' {
        s@.skip(1)
    } else {
        s@
    };
    proof {
        assert(t =~= s@.skip(start as int));
    }
    if n == start {
        return None;
    }
    let mut acc: u32 = 0;
    let mut i = start;
    while i < n
        invariant
            n == s@.len(),
            start <= i <= n,
            start <= 1,
            start < n,
            t == s@.skip(start as int),
            t == (if s@.len() > 0 && s@[0] == '+' {
                s@.skip(1)
            } else {
                s@
            }),
            acc <= 65535,
            acc == digits_value(t.take(i - start)),
            forall|j: int| 0 <= j < i - start ==> is_digit_c(#[trigger] t[j]),
        decreases n - i,
    {
        let c = s.get_char(i);
        let u = c as u32;
        proof {
            assert(t[i - start] == s@[i as int]);
            assert(t.take(i - start + 1).drop_last() =~= t.take(i - start));
            assert(t.take(i - start + 1).last() == t[i - start]);
        }
        if !(48 <= u && u <= 57) {
            return None;
        }
        acc = acc * 10 + (u - 48);
        if acc > 65535 {
            proof {
                if all_digits(t) {
                    lemma_digits_prefix_grows(t, i - start + 1);
                }
            }
            return None;
        }
        i = i + 1;
    }
    proof {
        assert(t.take(n - start) =~= t);
    }
    Some(acc as u16)
}

/// Looks a key up in the environment data.
pub fn get_var(env: &Vec<(String, String)>, key: &str) -> (r: Option<String>)
    ensures
        match r {
            Some(v) => env_value(env@, key@) == Some(v@),
            None => env_value(env@, key@) is None,
        },
{
    let n = env.len();
    let mut i: usize = 0;
    proof {
        assert(env@.skip(0) =~= env@);
    }
    while i < n
        invariant
            n == env@.len(),
            i <= n,
            env_value(env@, key@) == env_value(env@.skip(i as int), key@),
        decreases n - i,
    {
        proof {
            assert(env@.skip(i as int)[0] == env@[i as int]);
            assert(env@.skip(i as int).skip(1) =~= env@.skip(i + 1));
        }
        if str_eq(env[i].0.as_str(), key) {
            return Some(env[i].1.clone());
        }
        i = i + 1;
    }
    None
}

/// Looks a key up, falling back to the default when it is absent.
pub fn get_var_or(env: &Vec<(String, String)>, key: &str, default: String) -> (r: String)
    ensures
        r@ == (match env_value(env@, key@) {
            Some(v) => v,
            None => default@,
        }),
{
    match get_var(env, key) {
        Some(v) => v,
        None => default,
    }
}

/// Looks a numeric key up, falling back to the default when it is absent
/// or does not parse.
pub fn get_var_or_u16(env: &Vec<(String, String)>, key: &str, default: u16) -> (r: u16)
    ensures
        r == (match env_value(env@, key@) {
            Some(v) => match parsed_u16(v) {
                Some(x) => x,
                None => default,
            },
            None => default,
        }),
{
    match get_var(env, key) {
        Some(v) => match parse_u16(v.as_str()) {
            Some(x) => x,
            None => default,
        },
        None => default,
    }
}

/// Web server settings.
#[derive(Debug, Clone)]
pub struct AppConfig {
    pub host: String,
    pub port: u16,
    pub environment: String,
}

/// Whether the environment data can yield an [`AppConfig`].
pub open spec fn app_config_available(env: Seq<(String, String)>) -> bool {
    &&& env_value(env, "APP_HOST"@) is Some
    &&& (env_value(env, "APP_PORT"@) matches Some(p) && parsed_u16(p) is Some)
}

/// The message owed when the server settings cannot be built: the first
/// missing or unparseable key, in the order the keys are read.
pub open spec fn app_config_failure(env: Seq<(String, String)>) -> Seq<char> {
    if env_value(env, "APP_HOST"@) is None {
        "missing configuration: APP_HOST"@
    } else if env_value(env, "APP_PORT"@) is None {
        "missing configuration: APP_PORT"@
    } else {
        "invalid configuration: APP_PORT"@
    }
}

impl AppConfig {
    /// Whether these settings are exactly the ones owed to the
    /// environment data.
    pub open spec fn loaded_from(&self, env: Seq<(String, String)>) -> bool {
        &&& Some(self.host@) == env_value(env, "APP_HOST"@)
        &&& (env_value(env, "APP_PORT"@) matches Some(p) && parsed_u16(p) == Some(self.port))
        &&& self.environment@ == (match env_value(env, "APP_ENV"@) {
            Some(e) => e,
            None => "development"@,
        })
    }

    /// Builds the server settings from environment data: the host and a
    /// numeric port are required, the environment name defaults to
    /// `development`.
    pub fn from_env(env: &Vec<(String, String)>) -> (r: Result<AppConfig, String>)
        ensures
            r is Ok <==> app_config_available(env@),
            r matches Ok(c) ==> c.loaded_from(env@),
            r matches Err(m) ==> m@ == app_config_failure(env@),
    {
        let host = match get_var(env, "APP_HOST") {
            Some(h) => h,
            None => {
                return Err(String::from_str("missing configuration: APP_HOST"));
            },
        };
        let port_raw = match get_var(env, "APP_PORT") {
            Some(p) => p,
            None => {
                return Err(String::from_str("missing configuration: APP_PORT"));
            },
        };
        let port = match parse_u16(port_raw.as_str()) {
            Some(p) => p,
            None => {
                return Err(String::from_str("invalid configuration: APP_PORT"));
            },
        };
        let environment = get_var_or(env, "APP_ENV", String::from_str("development"));
        Ok(AppConfig { host, port, environment })
    }
}

/// Database connection settings.
#[derive(Debug, Clone)]
pub struct DatabaseConfig {
    pub host: String,
    pub port: u16,
    pub username: String,
    pub password: String,
    pub database_name: String,
    pub ssl_mode: String,
}

/// Whether the environment data can yield a [`DatabaseConfig`].
pub open spec fn database_config_available(env: Seq<(String, String)>) -> bool {
    &&& env_value(env, "DB_HOST"@) is Some
    &&& (env_value(env, "DB_PORT"@) matches Some(p) && parsed_u16(p) is Some)
    &&& env_value(env, "DB_USER"@) is Some
    &&& env_value(env, "DB_PASSWORD"@) is Some
    &&& env_value(env, "DB_NAME"@) is Some
}

/// The message owed when the database settings cannot be built.
pub open spec fn database_config_failure(env: Seq<(String, String)>) -> Seq<char> {
    if env_value(env, "DB_HOST"@) is None {
        "missing configuration: DB_HOST"@
    } else if env_value(env, "DB_PORT"@) is None {
        "missing configuration: DB_PORT"@
    } else if !(env_value(env, "DB_PORT"@) matches Some(p) && parsed_u16(p) is Some) {
        "invalid configuration: DB_PORT"@
    } else if env_value(env, "DB_USER"@) is None {
        "missing configuration: DB_USER"@
    } else if env_value(env, "DB_PASSWORD"@) is None {
        "missing configuration: DB_PASSWORD"@
    } else {
        "missing configuration: DB_NAME"@
    }
}

impl DatabaseConfig {
    /// Whether these settings are exactly the ones owed to the
    /// environment data.
    pub open spec fn loaded_from(&self, env: Seq<(String, String)>) -> bool {
        &&& Some(self.host@) == env_value(env, "DB_HOST"@)
        &&& (env_value(env, "DB_PORT"@) matches Some(p) && parsed_u16(p) == Some(self.port))
        &&& Some(self.username@) == env_value(env, "DB_USER"@)
        &&& Some(self.password@) == env_value(env, "DB_PASSWORD"@)
        &&& Some(self.database_name@) == env_value(env, "DB_NAME"@)
        &&& self.ssl_mode@ == (match env_value(env, "DB_SSL_MODE"@) {
            Some(m) => m,
            None => "prefer"@,
        })
    }

    /// Builds the database settings from environment data: host, numeric
    /// port, user, password and database name are required, the SSL mode
    /// defaults to `prefer`.
    pub fn from_env(env: &Vec<(String, String)>) -> (r: Result<DatabaseConfig, String>)
        ensures
            r is Ok <==> database_config_available(env@),
            r matches Ok(c) ==> c.loaded_from(env@),
            r matches Err(m) ==> m@ == database_config_failure(env@),
    {
        let host = match get_var(env, "DB_HOST") {
            Some(v) => v,
            None => {
                return Err(String::from_str("missing configuration: DB_HOST"));
            },
        };
        let port_raw = match get_var(env, "DB_PORT") {
            Some(v) => v,
            None => {
                return Err(String::from_str("missing configuration: DB_PORT"));
            },
        };
        let port = match parse_u16(port_raw.as_str()) {
            Some(p) => p,
            None => {
                return Err(String::from_str("invalid configuration: DB_PORT"));
            },
        };
        let username = match get_var(env, "DB_USER") {
            Some(v) => v,
            None => {
                return Err(String::from_str("missing configuration: DB_USER"));
            },
        };
        let password = match get_var(env, "DB_PASSWORD") {
            Some(v) => v,
            None => {
                return Err(String::from_str("missing configuration: DB_PASSWORD"));
            },
        };
        let database_name = match get_var(env, "DB_NAME") {
            Some(v) => v,
            None => {
                return Err(String::from_str("missing configuration: DB_NAME"));
            },
        };
        let ssl_mode = get_var_or(env, "DB_SSL_MODE", String::from_str("prefer"));
        Ok(DatabaseConfig { host, port, username, password, database_name, ssl_mode })
    }

    /// The connection string owed to these settings.
    pub open spec fn spec_connection_string(&self) -> Seq<char> {
        "postgres://"@ + self.username@ + ":"@ + self.password@ + "@"@ + self.host@ + ":"@
            + dec_digits(self.port as int) + "/"@ + self.database_name@ + "?sslmode="@
            + self.ssl_mode@
    }

    /// Assembles the connection string.
    pub fn connection_string(&self) -> (r: String)
        ensures
            r@ == self.spec_connection_string(),
    {
        let mut s = String::from_str("postgres://");
        s.append(self.username.as_str());
        s.append(":");
        s.append(self.password.as_str());
        s.append("@");
        s.append(self.host.as_str());
        s.append(":");
        push_u64_dec(&mut s, self.port as u64);
        s.append("/");
        s.append(self.database_name.as_str());
        s.append("?sslmode=");
        s.append(self.ssl_mode.as_str());
        s
    }
}

/// Object-storage settings.
#[derive(Debug, Clone)]
pub struct AwsConfig {
    pub access_key_id: String,
    pub secret_access_key: String,
    pub region: String,
    pub s3_bucket: String,
}

/// Whether the environment data can yield an [`AwsConfig`].
pub open spec fn aws_config_available(env: Seq<(String, String)>) -> bool {
    &&& env_value(env, "AWS_ACCESS_KEY_ID"@) is Some
    &&& env_value(env, "AWS_SECRET_ACCESS_KEY"@) is Some
    &&& env_value(env, "AWS_S3_BUCKET"@) is Some
}

/// The message owed when the object-storage settings cannot be built.
pub open spec fn aws_config_failure(env: Seq<(String, String)>) -> Seq<char> {
    if env_value(env, "AWS_ACCESS_KEY_ID"@) is None {
        "missing configuration: AWS_ACCESS_KEY_ID"@
    } else if env_value(env, "AWS_SECRET_ACCESS_KEY"@) is None {
        "missing configuration: AWS_SECRET_ACCESS_KEY"@
    } else {
        "missing configuration: AWS_S3_BUCKET"@
    }
}

impl AwsConfig {
    /// Whether these settings are exactly the ones owed to the
    /// environment data.
    pub open spec fn loaded_from(&self, env: Seq<(String, String)>) -> bool {
        &&& Some(self.access_key_id@) == env_value(env, "AWS_ACCESS_KEY_ID"@)
        &&& Some(self.secret_access_key@) == env_value(env, "AWS_SECRET_ACCESS_KEY"@)
        &&& Some(self.s3_bucket@) == env_value(env, "AWS_S3_BUCKET"@)
        &&& self.region@ == (match env_value(env, "AWS_REGION"@) {
            Some(v) => v,
            None => "us-east-1"@,
        })
    }

    /// Builds the object-storage settings from environment data: key,
    /// secret and bucket are required, the region defaults to
    /// `us-east-1`.
    pub fn from_env(env: &Vec<(String, String)>) -> (r: Result<AwsConfig, String>)
        ensures
            r is Ok <==> aws_config_available(env@),
            r matches Ok(c) ==> c.loaded_from(env@),
            r matches Err(m) ==> m@ == aws_config_failure(env@),
    {
        let access_key_id = match get_var(env, "AWS_ACCESS_KEY_ID") {
            Some(v) => v,
            None => {
                return Err(String::from_str("missing configuration: AWS_ACCESS_KEY_ID"));
            },
        };
        let secret_access_key = match get_var(env, "AWS_SECRET_ACCESS_KEY") {
            Some(v) => v,
            None => {
                return Err(String::from_str("missing configuration: AWS_SECRET_ACCESS_KEY"));
            },
        };
        let region = get_var_or(env, "AWS_REGION", String::from_str("us-east-1"));
        let s3_bucket = match get_var(env, "AWS_S3_BUCKET") {
            Some(v) => v,
            None => {
                return Err(String::from_str("missing configuration: AWS_S3_BUCKET"));
            },
        };
        Ok(AwsConfig { access_key_id, secret_access_key, region, s3_bucket })
    }
}

/// Outbound mail settings.
#[derive(Debug, Clone)]
pub struct SmtpConfig {
    pub host: String,
    pub port: u16,
    pub username: String,
    pub password: String,
    pub from_email: String,
}

/// Whether the environment data can yield an [`SmtpConfig`].
pub open spec fn smtp_config_available(env: Seq<(String, String)>) -> bool {
    &&& env_value(env, "SMTP_USERNAME"@) is Some
    &&& env_value(env, "SMTP_PASSWORD"@) is Some
    &&& env_value(env, "SMTP_FROM_EMAIL"@) is Some
}

/// The message owed when the mail settings cannot be built.
pub open spec fn smtp_config_failure(env: Seq<(String, String)>) -> Seq<char> {
    if env_value(env, "SMTP_USERNAME"@) is None {
        "missing configuration: SMTP_USERNAME"@
    } else if env_value(env, "SMTP_PASSWORD"@) is None {
        "missing configuration: SMTP_PASSWORD"@
    } else {
        "missing configuration: SMTP_FROM_EMAIL"@
    }
}

impl SmtpConfig {
    /// Whether these settings are exactly the ones owed to the
    /// environment data.
    pub open spec fn loaded_from(&self, env: Seq<(String, String)>) -> bool {
        &&& self.host@ == (match env_value(env, "SMTP_HOST"@) {
            Some(v) => v,
            None => "smtp.gmail.com"@,
        })
        &&& self.port == (match env_value(env, "SMTP_PORT"@) {
            Some(v) => match parsed_u16(v) {
                Some(x) => x,
                None => 587u16,
            },
            None => 587u16,
        })
        &&& Some(self.username@) == env_value(env, "SMTP_USERNAME"@)
        &&& Some(self.password@) == env_value(env, "SMTP_PASSWORD"@)
        &&& Some(self.from_email@) == env_value(env, "SMTP_FROM_EMAIL"@)
    }

    /// Builds the mail settings from environment data: username,
    /// password and sender address are required; the host defaults to
    /// `smtp.gmail.com` and the port to 587.
    pub fn from_env(env: &Vec<(String, String)>) -> (r: Result<SmtpConfig, String>)
        ensures
            r is Ok <==> smtp_config_available(env@),
            r matches Ok(c) ==> c.loaded_from(env@),
            r matches Err(m) ==> m@ == smtp_config_failure(env@),
    {
        let host = get_var_or(env, "SMTP_HOST", String::from_str("smtp.gmail.com"));
        let port = get_var_or_u16(env, "SMTP_PORT", 587);
        let username = match get_var(env, "SMTP_USERNAME") {
            Some(v) => v,
            None => {
                return Err(String::from_str("missing configuration: SMTP_USERNAME"));
            },
        };
        let password = match get_var(env, "SMTP_PASSWORD") {
            Some(v) => v,
            None => {
                return Err(String::from_str("missing configuration: SMTP_PASSWORD"));
            },
        };
        let from_email = match get_var(env, "SMTP_FROM_EMAIL") {
            Some(v) => v,
            None => {
                return Err(String::from_str("missing configuration: SMTP_FROM_EMAIL"));
            },
        };
        Ok(SmtpConfig { host, port, username, password, from_email })
    }
}

/// Third-party service settings.
#[derive(Debug, Clone)]
pub struct ServicesConfig {
    pub aws: AwsConfig,
    pub smtp: SmtpConfig,
}

/// The message owed when the service settings cannot be built: the
/// object-storage loader's failure first, then the mail loader's.
pub open spec fn services_config_failure(env: Seq<(String, String)>) -> Seq<char> {
    if !aws_config_available(env) {
        aws_config_failure(env)
    } else {
        smtp_config_failure(env)
    }
}

impl ServicesConfig {
    /// Whether these settings are exactly the ones owed to the
    /// environment data.
    pub open spec fn loaded_from(&self, env: Seq<(String, String)>) -> bool {
        self.aws.loaded_from(env) && self.smtp.loaded_from(env)
    }

    /// Builds every third-party service's settings from environment data.
    pub fn from_env(env: &Vec<(String, String)>) -> (r: Result<ServicesConfig, String>)
        ensures
            r is Ok <==> aws_config_available(env@) && smtp_config_available(env@),
            r matches Ok(c) ==> c.loaded_from(env@),
            r matches Err(m) ==> m@ == services_config_failure(env@),
    {
        let aws = match AwsConfig::from_env(env) {
            Ok(a) => a,
            Err(m) => {
                return Err(m);
            },
        };
        let smtp = match SmtpConfig::from_env(env) {
            Ok(s) => s,
            Err(m) => {
                return Err(m);
            },
        };
        Ok(ServicesConfig { aws, smtp })
    }
}

/// Everything the program needs to start.
#[derive(Debug, Clone)]
pub struct Config {
    pub app: AppConfig,
    pub database: DatabaseConfig,
    pub services: ServicesConfig,
}

/// The message owed when the configuration cannot be built: the first
/// failing loader's message, in loading order.
pub open spec fn config_failure(env: Seq<(String, String)>) -> Seq<char> {
    if !app_config_available(env) {
        app_config_failure(env)
    } else if !database_config_available(env) {
        database_config_failure(env)
    } else {
        services_config_failure(env)
    }
}

impl Config {
    /// Whether this configuration is exactly the one owed to the
    /// environment data.
    pub open spec fn loaded_from(&self, env: Seq<(String, String)>) -> bool {
        self.app.loaded_from(env) && self.database.loaded_from(env) && self.services.loaded_from(
            env,
        )
    }

    /// Builds the whole configuration from environment data.
    pub fn load(env: &Vec<(String, String)>) -> (r: Result<Config, String>)
        ensures
            r is Ok <==> app_config_available(env@) && database_config_available(env@)
                && aws_config_available(env@) && smtp_config_available(env@),
            r matches Ok(c) ==> c.loaded_from(env@),
            r matches Err(m) ==> m@ == config_failure(env@),
    {
        let app = match AppConfig::from_env(env) {
            Ok(a) => a,
            Err(m) => {
                return Err(m);
            },
        };
        let database = match DatabaseConfig::from_env(env) {
            Ok(d) => d,
            Err(m) => {
                return Err(m);
            },
        };
        let services = match ServicesConfig::from_env(env) {
            Ok(s) => s,
            Err(m) => {
                return Err(m);
            },
        };
        Ok(Config { app, database, services })
    }
}

} // verus!
