//! Engine configuration, held as plain values.
use vstd::prelude::*;

verus! {

/// Everything the engine and its surroundings are configured with.  The
/// process boundary fills these fields in; the engine only reads them.
pub struct AppConfig {
    pub static_domain: String,
    pub bind_addr: String,
    pub port: u16,
    /// Whether the bot-score threshold is enforced; off in development.
    pub production: bool,
    /// Bot scores below this many thousandths are rejected in production.
    pub score_threshold_milli: u32,
    pub recaptcha_key: String,
    pub recaptcha_secret: String,
    pub cloudflare_api_key: String,
    pub cloudflare_purge_url: String,
    pub cloudflare_enabled: bool,
    pub cookie_key: String,
    pub cookie_salt: String,
    pub cookie_secure: bool,
    /// Seconds between view-counter flushes.
    pub update_views_interval: u64,
    pub s3_bucket_url: String,
    pub s3_bucket: String,
    pub s3_prefix: String,
    pub aws_region: String,
    pub aws_access_key_id: String,
    pub aws_secret_access_key: String,
    pub aws_endpoint: String,
}

impl AppConfig {
    /// The built-in defaults; the process boundary overrides what its
    /// environment supplies.
    pub fn new() -> (r: AppConfig)
        ensures
            r.production == false,
            r.score_threshold_milli == 700,
            r.cloudflare_enabled == true,
            r.update_views_interval == 300,
            r.s3_prefix@ == "content/"@,
            r.cookie_secure == true,
    {
        AppConfig {
            static_domain: "localhost:2024".to_owned(),
            bind_addr: "127.0.0.1".to_owned(),
            port: 2024,
            production: false,
            score_threshold_milli: 700,
            recaptcha_key: String::new(),
            recaptcha_secret: String::new(),
            cloudflare_api_key: String::new(),
            cloudflare_purge_url: String::new(),
            cloudflare_enabled: true,
            cookie_key: String::new(),
            cookie_salt: String::new(),
            cookie_secure: true,
            update_views_interval: 300,
            s3_bucket_url: "https://bin.ada-young.com/".to_owned(),
            s3_bucket: "bin.ada-young.com".to_owned(),
            s3_prefix: "content/".to_owned(),
            aws_region: "us-east-1".to_owned(),
            aws_access_key_id: String::new(),
            aws_secret_access_key: String::new(),
            aws_endpoint: "s3.amazonaws.com".to_owned(),
        }
    }
}

/// The cookie name actually set: prefixed with `__Secure-` when cookies are
/// marked secure.
pub open spec fn cookie_name_spec(secure: bool, name: Seq<char>) -> Seq<char> {
    if secure {
        "__Secure-"@ + name
    } else {
        name
    }
}

/// The cookie name to use for the given base name.
pub fn get_cookie_name(config: &AppConfig, name: &str) -> (r: String)
    ensures
        r@ == cookie_name_spec(config.cookie_secure, name@),
{
    if config.cookie_secure {
        let mut r = "__Secure-".to_owned();
        r.append(name);
        r
    } else {
        name.to_owned()
    }
}

} // verus!
