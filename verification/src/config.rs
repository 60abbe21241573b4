use vstd::prelude::*;
use vstd::string::StrSliceExecFns;

use crate::hashing::{sha256_hex, sha256_hex_of};

verus! {

/// What std's str::trim leaves of a text: the text without its leading
/// and trailing whitespace.
pub uninterp spec fn trimmed_of(s: Seq<char>) -> Seq<char>;

/// Relies on str::trim: its documentation says it returns the input
/// with leading and trailing whitespace removed, a function of the
/// characters alone; the result is a subslice, so it is never longer.
#[verifier::external_body]
fn trimmed<'a>(s: &'a str) -> (r: &'a str)
    ensures
        r@ == trimmed_of(s@),
        r@.len() <= s@.len(),
{
    s.trim()
}

pub struct SecurityConfig {
    pub jwt_secret: String,
}

impl SecurityConfig {
    /// The first configuration fault of this section, if any.
    pub open spec fn spec_error(&self) -> Option<Seq<char>> {
        if trimmed_of(self.jwt_secret@).len() == 0 {
            Some("server.security.jwt-secret cannot be empty"@)
        } else if self.jwt_secret@.len() < 8 {
            Some("server.security.jwt-secret must be at least 8 characters"@)
        } else {
            None
        }
    }

    pub fn validate(&self) -> (r: Result<(), String>)
        ensures
            r is Ok <==> self.spec_error() is None,
            r matches Err(m) ==> Some(m@) == self.spec_error(),
    {
        if trimmed(self.jwt_secret.as_str()).is_empty() {
            return Err("server.security.jwt-secret cannot be empty".to_owned());
        }
        if self.jwt_secret.as_str().unicode_len() < 8 {
            return Err("server.security.jwt-secret must be at least 8 characters".to_owned());
        }
        Ok(())
    }
}

pub struct ServerConfig {
    pub host: String,
    pub port: u32,
    pub production: bool,
    pub cors_url: Vec<String>,
    pub security: SecurityConfig,
}

impl ServerConfig {
    /// The first configuration fault of this section, if any.
    pub open spec fn spec_error(&self) -> Option<Seq<char>> {
        if trimmed_of(self.host@).len() == 0 {
            Some("server.host cannot be empty"@)
        } else if self.port == 0 {
            Some("server.port must be greater than 0"@)
        } else if self.cors_url@.len() == 0 {
            Some("server.cors-url must contain at least one entry"@)
        } else {
            self.security.spec_error()
        }
    }

    pub fn validate(&self) -> (r: Result<(), String>)
        ensures
            r is Ok <==> self.spec_error() is None,
            r matches Err(m) ==> Some(m@) == self.spec_error(),
    {
        if trimmed(self.host.as_str()).is_empty() {
            return Err("server.host cannot be empty".to_owned());
        }
        if self.port == 0 {
            return Err("server.port must be greater than 0".to_owned());
        }
        if self.cors_url.len() == 0 {
            return Err("server.cors-url must contain at least one entry".to_owned());
        }
        self.security.validate()?;
        Ok(())
    }
}

pub struct HttpConfig {
    pub endpoint: String,
    pub api_key: Option<String>,
    pub hashed_api_key: Option<String>,
}

impl HttpConfig {
    /// Builds the section as the loader does: the raw API key, when one
    /// is given, is hashed to SHA-256 hex at load time.
    pub fn from_raw(endpoint: String, api_key: Option<String>) -> (r: HttpConfig)
        ensures
            r.endpoint == endpoint,
            r.api_key == api_key,
            api_key is None ==> r.hashed_api_key is None,
            api_key matches Some(k) ==> r.hashed_api_key matches Some(h) && h@ == sha256_hex_of(
                k@,
            ),
    {
        let hashed_api_key = match &api_key {
            Some(key) => Some(sha256_hex(key.as_str())),
            None => None,
        };
        HttpConfig { endpoint, api_key, hashed_api_key }
    }

    /// The first configuration fault of this section, if any. The
    /// endpoint must be non-blank and begin with '/', since it is
    /// mounted as a path under the API scope.
    pub open spec fn spec_error(&self) -> Option<Seq<char>> {
        if trimmed_of(self.endpoint@).len() == 0 {
            Some("events.http.endpoint cannot be empty"@)
        } else if self.endpoint@[0] != '/' {
            Some("events.http.endpoint must begin with '/'"@)
        } else if self.api_key is Some && self.hashed_api_key is None {
            Some("events.http.api-key was provided but hashing failed"@)
        } else if self.api_key matches Some(k) && k@.len() < 16 {
            Some("events.http.api-key must be at least 16 characters"@)
        } else {
            None
        }
    }

    pub fn validate(&self) -> (r: Result<(), String>)
        ensures
            r is Ok <==> self.spec_error() is None,
            r matches Err(m) ==> Some(m@) == self.spec_error(),
    {
        if trimmed(self.endpoint.as_str()).is_empty() {
            return Err("events.http.endpoint cannot be empty".to_owned());
        }
        if self.endpoint.as_str().get_char(0) != '/' {
            return Err("events.http.endpoint must begin with '/'".to_owned());
        }
        if self.api_key.is_some() && self.hashed_api_key.is_none() {
            return Err("events.http.api-key was provided but hashing failed".to_owned());
        }
        if let Some(api_key) = &self.api_key {
            if api_key.as_str().unicode_len() < 16 {
                return Err("events.http.api-key must be at least 16 characters".to_owned());
            }
        }
        Ok(())
    }
}

pub struct EventsConfig {
    pub http: Option<HttpConfig>,
}

impl EventsConfig {
    /// The first configuration fault of this section, if any: exactly
    /// one event transport (http) must be configured.
    pub open spec fn spec_error(&self) -> Option<Seq<char>> {
        match self.http {
            None => Some("events: at least one event type (http) must be configured"@),
            Some(http) => http.spec_error(),
        }
    }

    pub fn validate(&self) -> (r: Result<(), String>)
        ensures
            r is Ok <==> self.spec_error() is None,
            r matches Err(m) ==> Some(m@) == self.spec_error(),
    {
        let mut count: usize = 0;
        if self.http.is_some() {
            count = count + 1;
        }
        if count == 0 {
            return Err("events: at least one event type (http) must be configured".to_owned());
        }
        if let Some(http) = &self.http {
            http.validate()?;
        }
        Ok(())
    }
}

pub struct AppConfig {
    pub auth_required: bool,
    pub events: Option<EventsConfig>,
    pub event_logging: bool,
    pub events_logfile: Option<String>,
    /// Rotation period of the event log, in seconds.
    pub event_log_rotation: Option<u64>,
    pub event_segment_size: Option<usize>,
    pub event_max_segments: Option<usize>,
}

impl AppConfig {
    /// The first configuration fault of this section, if any.
    pub open spec fn spec_error(&self) -> Option<Seq<char>> {
        if self.events matches Some(events) && events.spec_error() is Some {
            self.events->Some_0.spec_error()
        } else if self.event_logging && self.events_logfile is None {
            Some("app: event-logging is enabled but no log file is given"@)
        } else if self.event_segment_size matches Some(size) && size == 0 {
            Some("app: event-segment-size must be greater than 0"@)
        } else if self.event_max_segments matches Some(max) && max == 0 {
            Some("app: event-max-segments must be greater than 0"@)
        } else {
            None
        }
    }

    pub fn validate(&self) -> (r: Result<(), String>)
        ensures
            r is Ok <==> self.spec_error() is None,
            r matches Err(m) ==> Some(m@) == self.spec_error(),
    {
        if let Some(events) = &self.events {
            events.validate()?;
        }
        if self.event_logging && self.events_logfile.is_none() {
            return Err("app: event-logging is enabled but no log file is given".to_owned());
        }
        if let Some(size) = self.event_segment_size {
            if size == 0 {
                return Err("app: event-segment-size must be greater than 0".to_owned());
            }
        }
        if let Some(max) = self.event_max_segments {
            if max == 0 {
                return Err("app: event-max-segments must be greater than 0".to_owned());
            }
        }
        Ok(())
    }
}

pub struct Config {
    pub server: ServerConfig,
    pub app: AppConfig,
}

} // verus!
