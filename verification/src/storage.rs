//! Device records: the registered device, the registration payload, and how
//! a payload becomes a valid record. Reading and writing the records
//! themselves is the storage collaborator's business, outside this library.

use vstd::prelude::*;

use core::str::FromStr;

use crate::error::Error;

verus! {

/// A registered device. Addresses are kept canonically, as the validation
/// wrote them.
#[derive(Clone, Debug)]
pub struct Device {
    pub id: String,
    pub mac: String,
    pub broadcast_addr: String,
    pub ip: Option<String>,
    pub times: Option<Vec<u64>>,
}

/// The wire shape of a device record, every field as text.
#[derive(Clone, Debug)]
pub struct DeviceSchema {
    pub id: String,
    pub mac: String,
    pub broadcast_addr: String,
    pub ip: String,
    pub times: Option<Vec<i64>>,
}

/// A device registration payload.
#[derive(Clone, Debug)]
pub struct DPayload {
    pub id: String,
    pub mac: String,
    pub broadcast_addr: String,
    pub ip: Option<String>,
}

/// Whether the hardware-address text parses.
pub uninterp spec fn mac_ok(s: Seq<char>) -> bool;

/// The canonical text of a hardware address that parses.
pub uninterp spec fn mac_canon(s: Seq<char>) -> Seq<char>;

/// Relies on `mac_address::MacAddress`: `from_str` accepts exactly the
/// crate's hardware-address grammar, and `Display` writes the parsed bytes
/// back out as colon-separated pairs of upper-case hexadecimal digits; both
/// depend on the input text alone.
#[verifier::external_body]
fn normalize_mac(s: &str) -> (r: Option<String>)
    ensures
        r is Some <==> mac_ok(s@),
        r matches Some(c) ==> c@ == mac_canon(s@) && c@.len() == 17,
{
    match mac_address::MacAddress::from_str(s) {
        Ok(m) => Some(m.to_string()),
        Err(_) => None,
    }
}

/// Whether the network-address text parses.
pub uninterp spec fn ip_ok(s: Seq<char>) -> bool;

/// The canonical text of a network address that parses.
pub uninterp spec fn ip_canon(s: Seq<char>) -> Seq<char>;

/// Relies on `ipnetwork::IpNetwork`: `from_str` accepts exactly the crate's
/// network grammar (an address with an optional prefix length), and
/// `Display` writes the parsed network back out; both depend on the input
/// text alone.
#[verifier::external_body]
fn normalize_ip(s: &str) -> (r: Option<String>)
    ensures
        r is Some <==> ip_ok(s@),
        r matches Some(c) ==> c@ == ip_canon(s@),
{
    match ipnetwork::IpNetwork::from_str(s) {
        Ok(n) => Some(n.to_string()),
        Err(_) => None,
    }
}

/// The payload names a network address that does not parse.
pub open spec fn payload_ip_invalid(p: DPayload) -> bool {
    match p.ip {
        Some(s) => !ip_ok(s@),
        None => false,
    }
}

/// The payload makes a valid device record.
pub open spec fn payload_ok(p: DPayload) -> bool {
    !payload_ip_invalid(p) && mac_ok(p.mac@)
}

/// The error a bad payload is rejected with: the network address is checked
/// before the hardware address.
pub open spec fn payload_err(p: DPayload) -> Error {
    if payload_ip_invalid(p) {
        Error::IpParse
    } else {
        Error::MacParse
    }
}

/// The device's address field holds the canonical form of the payload's.
pub open spec fn ip_field_canon(dip: Option<String>, pip: Option<String>) -> bool {
    match pip {
        None => dip is None,
        Some(s) => dip matches Some(c) && c@ == ip_canon(s@),
    }
}

impl Device {
    /// A new device record from a registration payload: both addresses are
    /// validated and written canonically; a new record starts with no
    /// recorded wake durations.
    pub fn from_payload(p: DPayload) -> (r: Result<Device, Error>)
        ensures
            r is Ok <==> payload_ok(p),
            r matches Err(e) ==> e == payload_err(p),
            r matches Ok(d) ==> d.id@ == p.id@ && d.mac@ == mac_canon(p.mac@)
                && d.broadcast_addr@ == p.broadcast_addr@ && ip_field_canon(d.ip, p.ip)
                && d.times is None,
    {
        let ip: Option<String> = match p.ip {
            Some(s) => {
                match normalize_ip(s.as_str()) {
                    Some(c) => Some(c),
                    None => {
                        return Err(Error::IpParse);
                    },
                }
            },
            None => None,
        };
        let mac: String = match normalize_mac(p.mac.as_str()) {
            Some(c) => c,
            None => {
                return Err(Error::MacParse);
            },
        };
        Ok(Device { id: p.id, mac: mac, broadcast_addr: p.broadcast_addr, ip: ip, times: None })
    }

    /// The same record with its recorded wake durations replaced: an edited
    /// device keeps the history already stored for its id.
    pub fn with_times(self, times: Option<Vec<u64>>) -> (r: Device)
        ensures
            r.id == self.id && r.mac == self.mac && r.broadcast_addr == self.broadcast_addr,
            r.ip == self.ip,
            r.times == times,
    {
        Device {
            id: self.id,
            mac: self.mac,
            broadcast_addr: self.broadcast_addr,
            ip: self.ip,
            times: times,
        }
    }
}

} // verus!
