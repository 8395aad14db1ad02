use rtunnel::config::{AppConfig, TunnelConfig};
use rtunnel::keyring_manager::{
    choose_password, get_proxy_service_name, plan_start, stored_or_empty, PasswordChoice,
    StartStep,
};
use rtunnel::text::{chars_of, decimal_string, parse_unsigned_decimal, text_contains};

#[test]
fn decimal_text_of_numbers() {
    assert_eq!(decimal_string(0), "0");
    assert_eq!(decimal_string(7), "7");
    assert_eq!(decimal_string(10), "10");
    assert_eq!(decimal_string(8080), "8080");
    assert_eq!(decimal_string(u64::MAX), u64::MAX.to_string());
}

#[test]
fn parse_accepts_what_str_parse_accepts() {
    let cases = [
        "80", "+80", "0080", "65535", "65536", "", "+", "-1", "-0", " 80", "80 ", "8o", "++1",
        "0", "99999999999999999999",
    ];
    for c in cases.iter() {
        let expected: Option<u64> = c.parse::<u16>().ok().map(|v| v as u64);
        assert_eq!(parse_unsigned_decimal(c, 65535), expected, "input {:?}", c);
        let expected64: Option<u64> = c.parse::<u64>().ok();
        assert_eq!(parse_unsigned_decimal(c, u64::MAX), expected64, "input {:?}", c);
    }
    assert_eq!(parse_unsigned_decimal("18446744073709551615", u64::MAX), Some(u64::MAX));
    assert_eq!(parse_unsigned_decimal("18446744073709551616", u64::MAX), None);
    assert_eq!(parse_unsigned_decimal("\u{0663}", u64::MAX), None);
}

#[test]
fn substring_search() {
    assert!(text_contains("ssh-ed25519 AAAAC3Nza", "AAAAC3"));
    assert!(text_contains("abc", ""));
    assert!(text_contains("abc", "abc"));
    assert!(!text_contains("abc", "abcd"));
    assert!(!text_contains("abc", "cb"));
    assert!(text_contains("äöü", "öü"));
    assert_eq!(chars_of("aé"), vec!['a', 'é']);
}

#[test]
fn default_tunnel_settings() {
    let c = TunnelConfig::default();
    assert_eq!(c.name, "New Tunnel");
    assert_eq!(c.local_port, 8080);
    assert_eq!(c.proxy_host, "");
    assert_eq!(c.proxy_port, 22);
    assert_eq!(c.proxy_username, "");
    assert!(c.save_proxy_password);
    assert_eq!(c.rsa_key_path, "");
    assert_eq!(c.target_host, "127.0.0.1");
    assert_eq!(c.target_port, 80);
    assert!(!c.auto_connect);
    let id: Vec<char> = c.id.chars().collect();
    assert_eq!(id.len(), 36);
    for (i, ch) in id.iter().enumerate() {
        if i == 8 || i == 13 || i == 18 || i == 23 {
            assert_eq!(*ch, '-');
        } else {
            assert!(ch.is_ascii_hexdigit() && !ch.is_ascii_uppercase());
        }
    }
    assert_eq!(id[14], '4');
    assert!(matches!(id[19], '8' | '9' | 'a' | 'b'));
    let other = TunnelConfig::default();
    assert_ne!(c.id, other.id);
}

#[test]
fn tunnel_with_given_id() {
    let c = TunnelConfig::with_id("abc".to_string());
    assert_eq!(c.id, "abc");
    assert_eq!(c.name, "New Tunnel");
    let d = c.duplicate();
    assert_eq!(d.id, "abc");
    assert_eq!(d.target_host, "127.0.0.1");
}

#[test]
fn default_app_settings() {
    let a = AppConfig::default();
    assert_eq!(a.connection_timeout, 10);
    assert!(a.minimize_to_tray);
    assert!(!a.start_on_boot);
}

#[test]
fn proxy_service_names() {
    assert_eq!(get_proxy_service_name("abc"), "rTunnel_abc_proxy");
    assert_eq!(get_proxy_service_name(""), "rTunnel__proxy");
}

#[test]
fn starting_asks_for_a_missing_password() {
    assert!(matches!(plan_start(Ok("".to_string())), StartStep::AskPassword));
    assert!(matches!(plan_start(Err("no entry".to_string())), StartStep::AskPassword));
    match plan_start(Ok("secret".to_string())) {
        StartStep::UseStored(p) => assert_eq!(p, "secret"),
        other => panic!("unexpected {:?}", other),
    }
}

#[test]
fn typed_password_is_used_and_maybe_remembered() {
    assert!(matches!(choose_password("".to_string(), true), PasswordChoice::Stored));
    match choose_password("pw".to_string(), true) {
        PasswordChoice::Typed { password, remember } => {
            assert_eq!(password, "pw");
            assert!(remember);
        }
        other => panic!("unexpected {:?}", other),
    }
    match choose_password("pw".to_string(), false) {
        PasswordChoice::Typed { remember, .. } => assert!(!remember),
        other => panic!("unexpected {:?}", other),
    }
    assert_eq!(stored_or_empty(Ok("x".to_string())), "x");
    assert_eq!(stored_or_empty(Err("gone".to_string())), "");
}
