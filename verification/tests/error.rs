use webol::error::Error;

#[test]
fn server_side_failures_report_500() {
    assert_eq!(Error::Json.response_parts(), (500, "Server Error"));
    assert_eq!(Error::ParseInt.response_parts(), (500, "Server Error"));
    assert_eq!(Error::Io { not_found: false }.response_parts(), (500, "Server Error"));
}

#[test]
fn an_unknown_device_reports_404() {
    assert_eq!(
        Error::Io { not_found: true }.response_parts(),
        (404, "Requested device not found")
    );
}

#[test]
fn bad_addresses_report_their_own_messages() {
    assert_eq!(
        Error::MacParse.response_parts(),
        (500, "The given MAC-Address couldn't be parsed")
    );
    assert_eq!(
        Error::IpParse.response_parts(),
        (500, "The given IP-Address couldn't be parsed")
    );
}

#[test]
fn tracking_without_an_address_reports_400() {
    assert_eq!(
        Error::NoIpOnPing.response_parts(),
        (400, "No IP saved for device, ping can't be executed. Device may be started anyway")
    );
}
