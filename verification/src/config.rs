//! The service's settings and their defaults. Reading the configuration
//! sources is the application's business; the library fills every gap with
//! its default.

use vstd::prelude::*;

use crate::auth::Methods;

verus! {

/// The service's settings.
#[derive(Clone, Debug)]
pub struct Config {
    pub serveraddr: String,
    /// The probe loop's overall bound, in minutes.
    pub pingtimeout: i64,
    /// Elapsed successful wakes below this many seconds are not recorded.
    pub pingthreshold: u64,
    pub timeoffset: i8,
    pub auth: Auth,
}

/// How requests authenticate.
#[derive(Clone, Debug)]
pub struct Auth {
    pub method: Methods,
    pub secret: String,
}

/// The values the configuration sources supplied, each where one was given.
#[derive(Clone, Debug)]
pub struct ConfigOverlay {
    pub serveraddr: Option<String>,
    pub pingtimeout: Option<i64>,
    pub pingthreshold: Option<u64>,
    pub timeoffset: Option<i8>,
    pub auth_method: Option<Methods>,
    pub auth_secret: Option<String>,
}

impl Config {
    /// The settings as loaded: each value as the sources supplied it, and
    /// every gap filled with its default.
    pub fn load(overlay: ConfigOverlay) -> (c: Config)
        ensures
            c.serveraddr@ == (match overlay.serveraddr {
                Some(s) => s@,
                None => "0.0.0.0:7229"@,
            }),
            c.pingtimeout == (match overlay.pingtimeout {
                Some(v) => v,
                None => 10i64,
            }),
            c.pingthreshold == (match overlay.pingthreshold {
                Some(v) => v,
                None => 1u64,
            }),
            c.timeoffset == (match overlay.timeoffset {
                Some(v) => v,
                None => 0i8,
            }),
            c.auth.method == (match overlay.auth_method {
                Some(m) => m,
                None => Methods::NoAuth,
            }),
            c.auth.secret@ == (match overlay.auth_secret {
                Some(s) => s@,
                None => ""@,
            }),
    {
        let serveraddr = match overlay.serveraddr {
            Some(s) => s,
            None => "0.0.0.0:7229".to_owned(),
        };
        let pingtimeout = match overlay.pingtimeout {
            Some(v) => v,
            None => 10,
        };
        let pingthreshold = match overlay.pingthreshold {
            Some(v) => v,
            None => 1,
        };
        let timeoffset = match overlay.timeoffset {
            Some(v) => v,
            None => 0,
        };
        let method = match overlay.auth_method {
            Some(m) => m,
            None => Methods::NoAuth,
        };
        let secret = match overlay.auth_secret {
            Some(s) => s,
            None => "".to_owned(),
        };
        Config {
            serveraddr,
            pingtimeout,
            pingthreshold,
            timeoffset,
            auth: Auth { method, secret },
        }
    }
}

} // verus!
