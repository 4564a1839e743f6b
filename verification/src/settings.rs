//! The settings that the server is started with.

use vstd::prelude::*;
use crate::models::clone_opt_string;
use crate::text::{decimal, decimal_digits};

verus! {

/// The port that the server listens on unless told otherwise.
pub const DEFAULT_PORT: u16 = 8094;

/// The host that the server binds to unless told otherwise.
pub const DEFAULT_HOST: &'static str = "127.0.0.1";

/// The settings of the application.
#[derive(Debug)]
pub struct Settings {
    /// Server host.
    pub host: String,
    /// Server port.
    pub port: u16,
    /// Where the database lies; the platform's usual place where unset.
    pub db_path: Option<String>,
    /// Accept connections from the local network, not from this machine only.
    pub allow_lan_access: bool,
    /// Ask every request for the API key.
    pub require_auth: bool,
    /// The API key that requests have to present.
    pub api_key: Option<String>,
    /// Open the browser when the server has started.
    pub open_browser: bool,
    /// One of trace, debug, info, warn and error.
    pub log_level: String,
}

/// The settings of an application that nobody has configured.
pub open spec fn is_default_settings(s: Settings) -> bool {
    &&& s.host@ == "127.0.0.1"@
    &&& s.port == 8094
    &&& s.db_path is None
    &&& !s.allow_lan_access
    &&& !s.require_auth
    &&& s.api_key is None
    &&& !s.open_browser
    &&& s.log_level@ == "info"@
}

impl Default for Settings {
    fn default() -> (s: Self)
        ensures
            is_default_settings(s),
    {
        Settings {
            host: String::from_str(DEFAULT_HOST),
            port: DEFAULT_PORT,
            db_path: None,
            allow_lan_access: false,
            require_auth: false,
            api_key: None,
            open_browser: false,
            log_level: String::from_str("info"),
        }
    }
}

impl Clone for Settings {
    fn clone(&self) -> (r: Self)
        ensures
            r == *self,
    {
        Settings {
            host: self.host.clone(),
            port: self.port,
            db_path: clone_opt_string(&self.db_path),
            allow_lan_access: self.allow_lan_access,
            require_auth: self.require_auth,
            api_key: clone_opt_string(&self.api_key),
            open_browser: self.open_browser,
            log_level: self.log_level.clone(),
        }
    }
}

/// `s` is `base` with the host, the port and the browser flag that were
/// given on the command line.
pub open spec fn overridden(s: Settings, base: Settings, host: String, port: u16, open: bool) -> bool {
    &&& s.host == host
    &&& s.port == port
    &&& s.open_browser == open
    &&& s.db_path == base.db_path
    &&& s.allow_lan_access == base.allow_lan_access
    &&& s.require_auth == base.require_auth
    &&& s.api_key == base.api_key
    &&& s.log_level == base.log_level
}

impl Settings {
    /// The settings for a start from the command line. `file` holds what
    /// the configuration file gave, if one was named and could be read;
    /// without it the defaults count. The host, the port and the browser
    /// flag of the command line go before the file's.
    pub fn from_args(host: String, port: u16, file: Option<Settings>, open: bool) -> (s: Self)
        ensures
            match file {
                Some(base) => overridden(s, base, host, port, open),
                None => exists|base: Settings| is_default_settings(base) && overridden(s, base, host, port, open),
            },
    {
        let mut settings = match file {
            Some(loaded) => loaded,
            None => Settings::default(),
        };
        let ghost base = settings;
        settings.host = host;
        settings.port = port;
        settings.open_browser = open;
        proof {
            assert(overridden(settings, base, host, port, open));
        }
        settings
    }

    /// The host that the server binds to.
    pub open spec fn bind_host_spec(&self) -> Seq<char> {
        if self.allow_lan_access {
            "0.0.0.0"@
        } else {
            self.host@
        }
    }

    /// The host that the server binds to: every interface where access
    /// from the local network is allowed, else the configured host.
    pub fn bind_host(&self) -> (h: &str)
        ensures
            h@ == self.bind_host_spec(),
    {
        if self.allow_lan_access {
            "0.0.0.0"
        } else {
            self.host.as_str()
        }
    }

    /// The URL of the server.
    pub open spec fn server_url_spec(&self) -> Seq<char> {
        "http://"@ + self.host@ + ":"@ + decimal_digits(self.port as nat)
    }

    /// The URL of the server: `http://`, the host, a colon and the port.
    pub fn server_url(&self) -> (url: String)
        ensures
            url@ == self.server_url_spec(),
    {
        let mut url = String::from_str("http://");
        url.append(self.host.as_str());
        url.append(":");
        let port = decimal(self.port as u64);
        url.append(port.as_str());
        url
    }
}

} // verus!
