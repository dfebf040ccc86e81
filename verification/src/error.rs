//! The error taxonomy and how each error is reported to an HTTP caller.

use vstd::prelude::*;

verus! {

/// Everything that can go wrong while serving a request.
#[derive(Clone, Copy, Debug, PartialEq, Eq, Structural)]
pub enum Error {
    /// A stored device record could not be decoded.
    Json,
    /// A hardware-address group could not be read as hexadecimal.
    ParseInt,
    /// The given network address could not be parsed.
    IpParse,
    /// The given hardware address could not be parsed.
    MacParse,
    /// Reading or writing a device record failed; `not_found` tells a missing
    /// record apart from any other failure.
    Io { not_found: bool },
    /// Tracking was requested for a device that has no address to probe.
    NoIpOnPing,
}

/// The status code each error is reported with.
pub open spec fn spec_status(e: Error) -> int {
    match e {
        Error::Io { not_found } => if not_found {
            404
        } else {
            500
        },
        Error::NoIpOnPing => 400,
        _ => 500,
    }
}

/// The message each error is reported with.
pub open spec fn spec_message(e: Error) -> Seq<char> {
    match e {
        Error::Json => "Server Error"@,
        Error::ParseInt => "Server Error"@,
        Error::IpParse => "The given IP-Address couldn't be parsed"@,
        Error::MacParse => "The given MAC-Address couldn't be parsed"@,
        Error::Io { not_found } => if not_found {
            "Requested device not found"@
        } else {
            "Server Error"@
        },
        Error::NoIpOnPing => "No IP saved for device, ping can't be executed. Device may be started anyway"@,
    }
}

impl Error {
    /// The status code and message this error is reported with: an unknown
    /// device is the caller's mistake (404), requesting tracking without an
    /// address is a bad request (400), and everything else is a server error.
    pub fn response_parts(&self) -> (r: (u16, &'static str))
        ensures
            r.0 == spec_status(*self),
            r.1@ == spec_message(*self),
    {
        match self {
            Error::Json => (500, "Server Error"),
            Error::ParseInt => (500, "Server Error"),
            Error::IpParse => (500, "The given IP-Address couldn't be parsed"),
            Error::MacParse => (500, "The given MAC-Address couldn't be parsed"),
            Error::Io { not_found } => {
                if *not_found {
                    (404, "Requested device not found")
                } else {
                    (500, "Server Error")
                }
            },
            Error::NoIpOnPing => (
                400,
                "No IP saved for device, ping can't be executed. Device may be started anyway",
            ),
        }
    }
}

} // verus!
