//! HTTP and client configuration profiles.

use vstd::prelude::*;
use vstd::string::*;
use crate::encoding::{decimal_text, format_decimal};
use crate::text::{has_prefix, opt_view, starts_with};

verus! {

/// The `Duration` of a whole number of seconds.
pub uninterp spec fn duration_of_secs(secs: u64) -> std::time::Duration;

/// Relies on `Duration::from_secs`, which depends on its argument alone.
#[verifier::external_body]
fn duration_from_secs(secs: u64) -> (r: std::time::Duration)
    ensures
        r == duration_of_secs(secs),
{
    std::time::Duration::from_secs(secs)
}

/// HTTP settings of a client.
#[derive(Clone, Debug)]
pub struct HttpProfile {
    /// HTTP request method (GET, POST).
    pub req_method: String,
    /// API endpoint, with or without a scheme.
    pub endpoint: String,
    /// Request timeout in seconds.
    pub req_timeout: u64,
    /// Connection timeout in seconds.
    pub connect_timeout: u64,
    /// Whether connections are kept alive.
    pub keep_alive: bool,
    /// Proxy host.
    pub proxy_host: Option<String>,
    /// Proxy port.
    pub proxy_port: Option<u16>,
    /// User-Agent header.
    pub user_agent: String,
}

/// The endpoint as a URL: as it is when it names `http://` or `https://`,
/// else behind `https://`.
pub open spec fn full_endpoint(endpoint: Seq<char>) -> Seq<char> {
    if has_prefix(endpoint, "http://"@) || has_prefix(endpoint, "https://"@) {
        endpoint
    } else {
        "https://"@ + endpoint
    }
}

/// The proxy URL `http://{host}:{port}`, when both are set.
pub open spec fn proxy_url(host: Option<Seq<char>>, port: Option<u16>) -> Option<Seq<char>> {
    match (host, port) {
        (Some(h), Some(p)) => Some("http://"@ + h + ":"@ + decimal_text(p as int)),
        _ => None,
    }
}

impl HttpProfile {
    /// The default settings: POST to `sms.tencentcloudapi.com`, 60-second
    /// timeouts, no keep-alive and no proxy.
    pub fn new() -> (r: Self)
        ensures
            r.req_method@ == "POST"@,
            r.endpoint@ == "sms.tencentcloudapi.com"@,
            r.req_timeout == 60,
            r.connect_timeout == 60,
            !r.keep_alive,
            r.proxy_host is None,
            r.proxy_port is None,
            r.user_agent@ == "TencentCloud-SDK-Rust/1.0.0"@,
    {
        HttpProfile {
            req_method: String::from_str("POST"),
            endpoint: String::from_str("sms.tencentcloudapi.com"),
            req_timeout: 60,
            connect_timeout: 60,
            keep_alive: false,
            proxy_host: None,
            proxy_port: None,
            user_agent: String::from_str("TencentCloud-SDK-Rust/1.0.0"),
        }
    }

    /// Sets the request method.
    pub fn set_req_method(&mut self, method: &str) -> (r: &mut Self)
        ensures
            r.req_method@ == method@,
            *r == (HttpProfile { req_method: r.req_method, ..*old(self) }),
            *final(self) == *final(r),
    {
        self.req_method = String::from_str(method);
        self
    }

    /// Sets the endpoint.
    pub fn set_endpoint(&mut self, endpoint: &str) -> (r: &mut Self)
        ensures
            r.endpoint@ == endpoint@,
            *r == (HttpProfile { endpoint: r.endpoint, ..*old(self) }),
            *final(self) == *final(r),
    {
        self.endpoint = String::from_str(endpoint);
        self
    }

    /// Sets the request timeout in seconds.
    pub fn set_req_timeout(&mut self, timeout: u64) -> (r: &mut Self)
        ensures
            *r == (HttpProfile { req_timeout: timeout, ..*old(self) }),
            *final(self) == *final(r),
    {
        self.req_timeout = timeout;
        self
    }

    /// Sets the connection timeout in seconds.
    pub fn set_connect_timeout(&mut self, timeout: u64) -> (r: &mut Self)
        ensures
            *r == (HttpProfile { connect_timeout: timeout, ..*old(self) }),
            *final(self) == *final(r),
    {
        self.connect_timeout = timeout;
        self
    }

    /// Sets keep-alive.
    pub fn set_keep_alive(&mut self, keep_alive: bool) -> (r: &mut Self)
        ensures
            *r == (HttpProfile { keep_alive: keep_alive, ..*old(self) }),
            *final(self) == *final(r),
    {
        self.keep_alive = keep_alive;
        self
    }

    /// Sets or clears the proxy host.
    pub fn set_proxy_host(&mut self, host: Option<&str>) -> (r: &mut Self)
        ensures
            opt_view(r.proxy_host) == crate::text::opt_str_view(host),
            *r == (HttpProfile { proxy_host: r.proxy_host, ..*old(self) }),
            *final(self) == *final(r),
    {
        self.proxy_host = match host {
            Some(h) => Some(String::from_str(h)),
            None => None,
        };
        self
    }

    /// Sets or clears the proxy port.
    pub fn set_proxy_port(&mut self, port: Option<u16>) -> (r: &mut Self)
        ensures
            *r == (HttpProfile { proxy_port: port, ..*old(self) }),
            *final(self) == *final(r),
    {
        self.proxy_port = port;
        self
    }

    /// Sets the User-Agent header.
    pub fn set_user_agent(&mut self, user_agent: &str) -> (r: &mut Self)
        ensures
            r.user_agent@ == user_agent@,
            *r == (HttpProfile { user_agent: r.user_agent, ..*old(self) }),
            *final(self) == *final(r),
    {
        self.user_agent = String::from_str(user_agent);
        self
    }

    /// The endpoint as a URL with a scheme.
    pub fn get_full_endpoint(&self) -> (r: String)
        ensures
            r@ == full_endpoint(self.endpoint@),
    {
        if starts_with(self.endpoint.as_str(), "http://") || starts_with(
            self.endpoint.as_str(),
            "https://",
        ) {
            self.endpoint.clone()
        } else {
            String::from_str("https://").concat(self.endpoint.as_str())
        }
    }

    /// The request timeout.
    pub fn get_req_timeout(&self) -> (r: std::time::Duration)
        ensures
            r == duration_of_secs(self.req_timeout),
    {
        duration_from_secs(self.req_timeout)
    }

    /// The connection timeout.
    pub fn get_connect_timeout(&self) -> (r: std::time::Duration)
        ensures
            r == duration_of_secs(self.connect_timeout),
    {
        duration_from_secs(self.connect_timeout)
    }

    /// Whether both a proxy host and a proxy port are set.
    pub fn has_proxy(&self) -> (r: bool)
        ensures
            r == (self.proxy_host is Some && self.proxy_port is Some),
    {
        self.proxy_host.is_some() && self.proxy_port.is_some()
    }

    /// The proxy URL, when both a host and a port are set.
    pub fn get_proxy_url(&self) -> (r: Option<String>)
        ensures
            opt_view(r) == proxy_url(opt_view(self.proxy_host), self.proxy_port),
    {
        match (&self.proxy_host, self.proxy_port) {
            (Some(host), Some(port)) => {
                let mut s = String::from_str("http://");
                s.append(host.as_str());
                s.append(":");
                s.append(format_decimal(port as i64).as_str());
                Some(s)
            },
            _ => None,
        }
    }
}

impl Default for HttpProfile {
    /// The default settings, as `new` gives them.
    fn default() -> (r: Self)
        ensures
            r.req_method@ == "POST"@,
            r.endpoint@ == "sms.tencentcloudapi.com"@,
            r.req_timeout == 60,
            r.connect_timeout == 60,
            !r.keep_alive,
            r.proxy_host is None,
            r.proxy_port is None,
            r.user_agent@ == "TencentCloud-SDK-Rust/1.0.0"@,
    {
        HttpProfile::new()
    }
}

/// Client settings.
#[derive(Clone, Debug)]
pub struct ClientProfile {
    /// HTTP settings.
    pub http_profile: HttpProfile,
    /// Signature method.
    pub sign_method: String,
    /// API version.
    pub api_version: String,
    /// Language of error messages.
    pub language: String,
    /// Debug mode.
    pub debug: bool,
}

impl ClientProfile {
    /// The default client settings around the given HTTP settings:
    /// `HmacSHA256`, API version `2021-01-11`, `en-US`, debug off.
    pub fn with_http_profile(http_profile: HttpProfile) -> (r: Self)
        ensures
            r.http_profile == http_profile,
            r.sign_method@ == "HmacSHA256"@,
            r.api_version@ == "2021-01-11"@,
            r.language@ == "en-US"@,
            !r.debug,
    {
        ClientProfile {
            http_profile,
            sign_method: String::from_str("HmacSHA256"),
            api_version: String::from_str("2021-01-11"),
            language: String::from_str("en-US"),
            debug: false,
        }
    }

    /// The default client settings with default HTTP settings.
    pub fn new() -> (r: Self)
        ensures
            r.http_profile.req_method@ == "POST"@,
            r.http_profile.endpoint@ == "sms.tencentcloudapi.com"@,
            r.http_profile.req_timeout == 60,
            r.http_profile.connect_timeout == 60,
            !r.http_profile.keep_alive,
            r.http_profile.proxy_host is None,
            r.http_profile.proxy_port is None,
            r.http_profile.user_agent@ == "TencentCloud-SDK-Rust/1.0.0"@,
            r.sign_method@ == "HmacSHA256"@,
            r.api_version@ == "2021-01-11"@,
            r.language@ == "en-US"@,
            !r.debug,
    {
        ClientProfile::with_http_profile(HttpProfile::new())
    }

    /// Sets the HTTP settings.
    pub fn set_http_profile(&mut self, profile: HttpProfile) -> (r: &mut Self)
        ensures
            *r == (ClientProfile { http_profile: profile, ..*old(self) }),
            *final(self) == *final(r),
    {
        self.http_profile = profile;
        self
    }

    /// Sets the signature method.
    pub fn set_sign_method(&mut self, method: &str) -> (r: &mut Self)
        ensures
            r.sign_method@ == method@,
            *r == (ClientProfile { sign_method: r.sign_method, ..*old(self) }),
            *final(self) == *final(r),
    {
        self.sign_method = String::from_str(method);
        self
    }

    /// Sets the API version.
    pub fn set_api_version(&mut self, version: &str) -> (r: &mut Self)
        ensures
            r.api_version@ == version@,
            *r == (ClientProfile { api_version: r.api_version, ..*old(self) }),
            *final(self) == *final(r),
    {
        self.api_version = String::from_str(version);
        self
    }

    /// Sets the language.
    pub fn set_language(&mut self, language: &str) -> (r: &mut Self)
        ensures
            r.language@ == language@,
            *r == (ClientProfile { language: r.language, ..*old(self) }),
            *final(self) == *final(r),
    {
        self.language = String::from_str(language);
        self
    }

    /// Sets debug mode.
    pub fn set_debug(&mut self, debug: bool) -> (r: &mut Self)
        ensures
            *r == (ClientProfile { debug: debug, ..*old(self) }),
            *final(self) == *final(r),
    {
        self.debug = debug;
        self
    }

    /// The HTTP settings.
    pub fn get_http_profile(&self) -> (r: &HttpProfile)
        ensures
            *r == self.http_profile,
    {
        &self.http_profile
    }

    /// The signature method.
    pub fn get_sign_method(&self) -> (r: &str)
        ensures
            r@ == self.sign_method@,
    {
        self.sign_method.as_str()
    }

    /// The API version.
    pub fn get_api_version(&self) -> (r: &str)
        ensures
            r@ == self.api_version@,
    {
        self.api_version.as_str()
    }

    /// The language.
    pub fn get_language(&self) -> (r: &str)
        ensures
            r@ == self.language@,
    {
        self.language.as_str()
    }

    /// Whether debug mode is on.
    pub fn is_debug(&self) -> (r: bool)
        ensures
            r == self.debug,
    {
        self.debug
    }
}

impl Default for ClientProfile {
    /// The default client settings, as `new` gives them.
    fn default() -> (r: Self)
        ensures
            r.http_profile.req_method@ == "POST"@,
            r.http_profile.endpoint@ == "sms.tencentcloudapi.com"@,
            r.sign_method@ == "HmacSHA256"@,
            r.api_version@ == "2021-01-11"@,
            r.language@ == "en-US"@,
            !r.debug,
    {
        ClientProfile::new()
    }
}

} // verus!
