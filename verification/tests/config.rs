use webol::auth::{authorized, Methods};
use webol::config::{Auth, Config, ConfigOverlay};

fn empty_overlay() -> ConfigOverlay {
    ConfigOverlay {
        serveraddr: None,
        pingtimeout: None,
        pingthreshold: None,
        timeoffset: None,
        auth_method: None,
        auth_secret: None,
    }
}

#[test]
fn every_setting_has_its_default() {
    let c = Config::load(empty_overlay());
    assert_eq!(c.serveraddr, "0.0.0.0:7229");
    assert_eq!(c.pingtimeout, 10);
    assert_eq!(c.pingthreshold, 1);
    assert_eq!(c.timeoffset, 0);
    assert!(matches!(c.auth.method, Methods::NoAuth));
    assert_eq!(c.auth.secret, "");
}

#[test]
fn supplied_settings_win_over_defaults() {
    let c = Config::load(ConfigOverlay {
        serveraddr: Some("127.0.0.1:8080".to_string()),
        pingtimeout: Some(3),
        pingthreshold: Some(5),
        timeoffset: Some(-2),
        auth_method: Some(Methods::Key),
        auth_secret: Some("SECRET-REDACTED".to_string()),
    });
    assert_eq!(c.serveraddr, "127.0.0.1:8080");
    assert_eq!(c.pingtimeout, 3);
    assert_eq!(c.pingthreshold, 5);
    assert_eq!(c.timeoffset, -2);
    assert!(matches!(c.auth.method, Methods::Key));
    assert_eq!(c.auth.secret, "SECRET-REDACTED");
}

#[test]
fn key_auth_requires_the_exact_secret() {
    let a = Auth { method: Methods::Key, secret: "s3cr3t".to_string() };
    assert!(authorized(&a, Some(&"s3cr3t".to_string())));
    assert!(!authorized(&a, Some(&"wrong".to_string())));
    assert!(!authorized(&a, None));
}

#[test]
fn no_auth_lets_everything_pass() {
    let a = Auth { method: Methods::NoAuth, secret: "ignored".to_string() };
    assert!(authorized(&a, None));
    assert!(authorized(&a, Some(&"anything".to_string())));
}
