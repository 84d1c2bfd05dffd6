//! The configuration of the application, put together from the values of
//! environment variables.

use crate::text::{owned, same_text, split_at_first};
use vstd::prelude::*;

verus! {

/// The port that `str::parse::<u16>` reads from a text; nothing where it
/// fails.
pub uninterp spec fn parsed_port(text: Seq<char>) -> Option<u16>;

/// Reads a port number.
///
/// Trusted: calls `str::parse::<u16>`. The result depends on the text
/// alone; the contract gives it a name.
#[verifier::external_body]
fn read_port(text: &str) -> (port: Option<u16>)
    ensures
        port == parsed_port(text@),
{
    text.parse::<u16>().ok()
}

/// The values of the environment variables that the configuration is made
/// from; `None` where a variable is not set.
#[derive(Debug)]
pub struct Environment {
    pub app_env: Option<String>,
    pub server_host: Option<String>,
    pub server_port: Option<String>,
    pub app_secret_key: Option<String>,
    pub database_url: Option<String>,
    pub redis_url: Option<String>,
    pub sentry_dsn: Option<String>,
    pub sabi_nostr_nsec: Option<String>,
    pub nostr_relays: Option<String>,
    pub breez_api_key: Option<String>,
    pub breez_mnemonic: Option<String>,
    pub paystack_secret_key: Option<String>,
    pub at_api_key: Option<String>,
    pub at_username: Option<String>,
    pub default_admin_password: Option<String>,
    pub smtp_username: Option<String>,
    pub smtp_password: Option<String>,
    pub smtp_host: Option<String>,
    pub smtp_port: Option<String>,
    pub alert_email_from: Option<String>,
    pub admin_email_recipient: Option<String>,
}

/// The configuration of the application.
#[derive(Debug)]
pub struct Config {
    pub app_env: String,
    pub server_host: String,
    pub server_port: u16,
    pub app_secret_key: String,
    pub database_url: String,
    pub redis_url: String,
    pub sentry_dsn: String,
    pub sabi_nostr_nsec: String,
    pub nostr_relays: Vec<String>,
    pub breez_api_key: String,
    pub breez_mnemonic: String,
    pub paystack_secret_key: String,
    pub at_api_key: String,
    pub at_username: String,
    pub default_admin_password: String,
    pub smtp_username: Option<String>,
    pub smtp_password: Option<String>,
    pub smtp_host: Option<String>,
    pub smtp_port: Option<u16>,
    pub alert_email_from: String,
    pub admin_email_recipient: String,
}

/// Why no configuration could be made.
#[derive(Debug, Clone, Copy, PartialEq, Eq, Structural)]
pub enum ConfigError {
    /// `SERVER_PORT` is set and is no port number.
    BadServerPort,
    AppSecretKeyMissing,
    DatabaseUrlMissing,
    RedisUrlMissing,
    NostrNsecMissing,
    BreezApiKeyMissing,
    BreezMnemonicMissing,
    PaystackSecretKeyMissing,
    AtApiKeyMissing,
    AtUsernameMissing,
    DefaultAdminPasswordMissing,
    /// `SMTP_PORT` is set and is no port number.
    BadSmtpPort,
}

impl ConfigError {
    /// The failure in words.
    pub fn message(&self) -> (text: &'static str)
        ensures
            text@ == match *self {
                ConfigError::BadServerPort => "SERVER_PORT must be a valid u16"@,
                ConfigError::AppSecretKeyMissing => "APP_SECRET_KEY must be set"@,
                ConfigError::DatabaseUrlMissing => "DATABASE_URL must be set"@,
                ConfigError::RedisUrlMissing => "REDIS_URL must be set"@,
                ConfigError::NostrNsecMissing => "SABI_NOSTR_NSEC must be set"@,
                ConfigError::BreezApiKeyMissing => "BREEZ_API_KEY must be set"@,
                ConfigError::BreezMnemonicMissing => "BREEZ_MNEMONIC must be set"@,
                ConfigError::PaystackSecretKeyMissing => "PAYSTACK_SECRET_KEY must be set"@,
                ConfigError::AtApiKeyMissing => "AT_API_KEY must be set"@,
                ConfigError::AtUsernameMissing => "AT_USERNAME must be set"@,
                ConfigError::DefaultAdminPasswordMissing => "DEFAULT_ADMIN_PASSWORD must be set"@,
                ConfigError::BadSmtpPort => "SMTP_PORT must be a valid u16 if set"@,
            },
    {
        match self {
            ConfigError::BadServerPort => "SERVER_PORT must be a valid u16",
            ConfigError::AppSecretKeyMissing => "APP_SECRET_KEY must be set",
            ConfigError::DatabaseUrlMissing => "DATABASE_URL must be set",
            ConfigError::RedisUrlMissing => "REDIS_URL must be set",
            ConfigError::NostrNsecMissing => "SABI_NOSTR_NSEC must be set",
            ConfigError::BreezApiKeyMissing => "BREEZ_API_KEY must be set",
            ConfigError::BreezMnemonicMissing => "BREEZ_MNEMONIC must be set",
            ConfigError::PaystackSecretKeyMissing => "PAYSTACK_SECRET_KEY must be set",
            ConfigError::AtApiKeyMissing => "AT_API_KEY must be set",
            ConfigError::AtUsernameMissing => "AT_USERNAME must be set",
            ConfigError::DefaultAdminPasswordMissing => "DEFAULT_ADMIN_PASSWORD must be set",
            ConfigError::BadSmtpPort => "SMTP_PORT must be a valid u16 if set",
        }
    }
}

/// The fields of a text between its commas.
pub open spec fn comma_fields(text: Seq<char>) -> Seq<Seq<char>>
    decreases text.len(),
{
    match text.index_of_first(',') {
        Some(i) => if 0 <= i < text.len() {
            seq![text.take(i)] + comma_fields(text.skip(i + 1))
        } else {
            seq![text]
        },
        None => seq![text],
    }
}

/// The fields that are not empty.
pub open spec fn filled(fields: Seq<Seq<char>>) -> Seq<Seq<char>> {
    fields.filter(|f: Seq<char>| f.len() > 0)
}

/// The relays that a comma-separated list names: its fields, without the
/// empty ones.
pub open spec fn relay_list(text: Seq<char>) -> Seq<Seq<char>> {
    filled(comma_fields(text))
}

/// The texts of a vector of strings.
pub open spec fn texts(v: Seq<String>) -> Seq<Seq<char>> {
    Seq::new(v.len(), |i: int| v[i]@)
}

/// Where a text is something without a comma, a comma, and a rest, the
/// first comma stands right after that something.
proof fn lemma_first_comma(text: Seq<char>, before: Seq<char>, after: Seq<char>)
    requires
        text == before + seq![','] + after,
        !before.contains(','),
    ensures
        text.index_of_first(',') == Some(before.len() as int),
        text.take(before.len() as int) == before,
        text.skip(before.len() as int + 1) == after,
{
    let i = before.len() as int;
    assert(text[i] == ',');
    text.index_of_first_ensures(',');
    let j = text.index_of_first(',').unwrap();
    if j < i {
        assert(before[j] == text[j]);
        assert(before.contains(','));
    }
    assert(text.take(i) =~= before);
    assert(text.skip(i + 1) =~= after);
}

/// Reads a comma-separated list of relays; empty fields are left out.
pub fn parse_relays(list: &str) -> (relays: Vec<String>)
    ensures
        texts(relays@) == relay_list(list@),
{
    let mut relays: Vec<String> = Vec::new();
    let mut rest: &str = list;
    let ghost mut done: Seq<Seq<char>> = Seq::empty();
    loop
        invariant
            texts(relays@) == filled(done),
            comma_fields(list@) == done + comma_fields(rest@),
        decreases rest@.len(),
    {
        let parts = split_at_first(rest, ',');
        let ghost before_rest = rest@;
        match parts {
            Some((field, after)) => {
                proof {
                    lemma_first_comma(rest@, field@, after@);
                    assert(comma_fields(before_rest) == seq![field@] + comma_fields(after@));
                    assert(done + (seq![field@] + comma_fields(after@)) =~= done.push(field@)
                        + comma_fields(after@));
                    lemma_filled_push(done, field@);
                }
                if !field.is_empty() {
                    relays.push(owned(field));
                    assert(texts(relays@) =~= filled(done).push(field@));
                }
                proof {
                    done = done.push(field@);
                }
                rest = after;
            },
            None => {
                proof {
                    rest@.index_of_first_ensures(',');
                    assert(comma_fields(rest@) == seq![rest@]);
                    lemma_filled_push(done, rest@);
                    assert(done + seq![rest@] =~= done.push(rest@));
                }
                if !rest.is_empty() {
                    relays.push(owned(rest));
                    assert(texts(relays@) =~= filled(done).push(rest@));
                }
                return relays;
            },
        }
    }
}

/// Leaving out the empty fields commutes with adding a field at the end.
proof fn lemma_filled_push(fields: Seq<Seq<char>>, field: Seq<char>)
    ensures
        filled(fields.push(field)) == if field.len() > 0 {
            filled(fields).push(field)
        } else {
            filled(fields)
        },
{
    let keep = |f: Seq<char>| f.len() > 0;
    assert(fields.push(field).drop_last() =~= fields);
    reveal(Seq::filter);
    assert(fields.push(field).filter(keep) == if keep(field) {
        fields.filter(keep).push(field)
    } else {
        fields.filter(keep)
    });
}

/// What error tracking is set up with.
#[derive(Debug, Clone, Copy, PartialEq, Eq, Structural)]
pub struct SentryPlan {
    /// Whether the tracker reports on itself: in the `dev` environment.
    pub debug: bool,
}

impl Config {
    /// Puts the configuration together.
    ///
    /// Variables that are not set take their defaults: `dev` for the
    /// environment, `0.0.0.0` for the host, `8080` for the port, nothing
    /// for the tracker and the relays. The secrets and the user name of
    /// the USSD gateway must be set, and the ports must be port numbers.
    /// The first of these that fails, in the order of the fields, is the
    /// error.
    pub fn load(env: Environment) -> (r: Result<Config, ConfigError>)
        ensures
            match r {
                Ok(c) => {
                    &&& first_failure(env) is None
                    &&& c.app_env@ == value_or(env.app_env, "dev"@)
                    &&& c.server_host@ == value_or(env.server_host, "0.0.0.0"@)
                    &&& c.server_port == match env.server_port {
                        Some(p) => parsed_port(p@).unwrap(),
                        None => 8080,
                    }
                    &&& Some(c.app_secret_key) == env.app_secret_key
                    &&& Some(c.database_url) == env.database_url
                    &&& Some(c.redis_url) == env.redis_url
                    &&& c.sentry_dsn@ == value_or(env.sentry_dsn, ""@)
                    &&& Some(c.sabi_nostr_nsec) == env.sabi_nostr_nsec
                    &&& texts(c.nostr_relays@) == relay_list(value_or(env.nostr_relays, ""@))
                    &&& Some(c.breez_api_key) == env.breez_api_key
                    &&& Some(c.breez_mnemonic) == env.breez_mnemonic
                    &&& Some(c.paystack_secret_key) == env.paystack_secret_key
                    &&& Some(c.at_api_key) == env.at_api_key
                    &&& Some(c.at_username) == env.at_username
                    &&& Some(c.default_admin_password) == env.default_admin_password
                    &&& c.smtp_username == env.smtp_username
                    &&& c.smtp_password == env.smtp_password
                    &&& c.smtp_host == env.smtp_host
                    &&& c.smtp_port == match env.smtp_port {
                        Some(p) => parsed_port(p@),
                        None => None,
                    }
                    &&& c.alert_email_from@ == value_or(
                        env.alert_email_from,
                        "Sabi Wallet Alerts <noreply@sabi.money>"@,
                    )
                    &&& c.admin_email_recipient@ == value_or(
                        env.admin_email_recipient,
                        "admin@sabi.money"@,
                    )
                },
                Err(e) => first_failure(env) == Some(e),
            },
    {
        let app_env = take_or(env.app_env, "dev");
        let server_host = take_or(env.server_host, "0.0.0.0");
        let server_port: u16 = match &env.server_port {
            Some(text) => match read_port(text.as_str()) {
                Some(p) => p,
                None => {
                    return Err(ConfigError::BadServerPort);
                },
            },
            None => 8080,
        };
        let app_secret_key = match env.app_secret_key {
            Some(v) => v,
            None => {
                return Err(ConfigError::AppSecretKeyMissing);
            },
        };
        let database_url = match env.database_url {
            Some(v) => v,
            None => {
                return Err(ConfigError::DatabaseUrlMissing);
            },
        };
        let redis_url = match env.redis_url {
            Some(v) => v,
            None => {
                return Err(ConfigError::RedisUrlMissing);
            },
        };
        let sentry_dsn = take_or(env.sentry_dsn, "");
        let sabi_nostr_nsec = match env.sabi_nostr_nsec {
            Some(v) => v,
            None => {
                return Err(ConfigError::NostrNsecMissing);
            },
        };
        let relay_text = take_or(env.nostr_relays, "");
        let nostr_relays = parse_relays(relay_text.as_str());
        let breez_api_key = match env.breez_api_key {
            Some(v) => v,
            None => {
                return Err(ConfigError::BreezApiKeyMissing);
            },
        };
        let breez_mnemonic = match env.breez_mnemonic {
            Some(v) => v,
            None => {
                return Err(ConfigError::BreezMnemonicMissing);
            },
        };
        let paystack_secret_key = match env.paystack_secret_key {
            Some(v) => v,
            None => {
                return Err(ConfigError::PaystackSecretKeyMissing);
            },
        };
        let at_api_key = match env.at_api_key {
            Some(v) => v,
            None => {
                return Err(ConfigError::AtApiKeyMissing);
            },
        };
        let at_username = match env.at_username {
            Some(v) => v,
            None => {
                return Err(ConfigError::AtUsernameMissing);
            },
        };
        let default_admin_password = match env.default_admin_password {
            Some(v) => v,
            None => {
                return Err(ConfigError::DefaultAdminPasswordMissing);
            },
        };
        let smtp_port = match &env.smtp_port {
            Some(text) => match read_port(text.as_str()) {
                Some(p) => Some(p),
                None => {
                    return Err(ConfigError::BadSmtpPort);
                },
            },
            None => None,
        };
        let alert_email_from = take_or(
            env.alert_email_from,
            "Sabi Wallet Alerts <noreply@sabi.money>",
        );
        let admin_email_recipient = take_or(env.admin_email_recipient, "admin@sabi.money");
        Ok(
            Config {
                app_env,
                server_host,
                server_port,
                app_secret_key,
                database_url,
                redis_url,
                sentry_dsn,
                sabi_nostr_nsec,
                nostr_relays,
                breez_api_key,
                breez_mnemonic,
                paystack_secret_key,
                at_api_key,
                at_username,
                default_admin_password,
                smtp_username: env.smtp_username,
                smtp_password: env.smtp_password,
                smtp_host: env.smtp_host,
                smtp_port,
                alert_email_from,
                admin_email_recipient,
            },
        )
    }

    /// Whether and how error tracking is set up: not without a DSN.
    pub fn sentry_plan(&self) -> (plan: Option<SentryPlan>)
        ensures
            plan == if self.sentry_dsn@.len() == 0 {
                None
            } else {
                Some(SentryPlan { debug: self.app_env@ == "dev"@ })
            },
    {
        if self.sentry_dsn.as_str().is_empty() {
            None
        } else {
            Some(SentryPlan { debug: same_text(self.app_env.as_str(), "dev") })
        }
    }
}

/// The value of a variable, or its default.
pub open spec fn value_or(value: Option<String>, default: Seq<char>) -> Seq<char> {
    match value {
        Some(v) => v@,
        None => default,
    }
}

/// The first thing that is wrong with the environment, in the order of the
/// fields of the configuration.
pub open spec fn first_failure(env: Environment) -> Option<ConfigError> {
    if env.server_port matches Some(p) && parsed_port(p@) is None {
        Some(ConfigError::BadServerPort)
    } else if env.app_secret_key is None {
        Some(ConfigError::AppSecretKeyMissing)
    } else if env.database_url is None {
        Some(ConfigError::DatabaseUrlMissing)
    } else if env.redis_url is None {
        Some(ConfigError::RedisUrlMissing)
    } else if env.sabi_nostr_nsec is None {
        Some(ConfigError::NostrNsecMissing)
    } else if env.breez_api_key is None {
        Some(ConfigError::BreezApiKeyMissing)
    } else if env.breez_mnemonic is None {
        Some(ConfigError::BreezMnemonicMissing)
    } else if env.paystack_secret_key is None {
        Some(ConfigError::PaystackSecretKeyMissing)
    } else if env.at_api_key is None {
        Some(ConfigError::AtApiKeyMissing)
    } else if env.at_username is None {
        Some(ConfigError::AtUsernameMissing)
    } else if env.default_admin_password is None {
        Some(ConfigError::DefaultAdminPasswordMissing)
    } else if env.smtp_port matches Some(p) && parsed_port(p@) is None {
        Some(ConfigError::BadSmtpPort)
    } else {
        None
    }
}

/// The value of a variable, or its default.
fn take_or(value: Option<String>, default: &str) -> (text: String)
    ensures
        text@ == value_or(value, default@),
{
    match value {
        Some(v) => v,
        None => owned(default),
    }
}

} // verus!
