use mde_shell::wizard::{
    build_activate_argv, build_enroll_argv, normalize, parse_nmcli_connections, validate,
    NmConnection, ValidationError, PASSCODE_LEN,
};

#[test]
fn passcode_len_is_16() {
    assert_eq!(PASSCODE_LEN, 16);
}

#[test]
fn validate_accepts_canonical_passcode() {
    assert!(validate("0123456789ABCDEF").is_ok());
    assert!(validate("FACE000000000ACE").is_ok());
}

#[test]
fn validate_rejects_short() {
    let err = validate("ABC").unwrap_err();
    assert!(matches!(err, ValidationError::WrongLength { .. }));
}

#[test]
fn validate_rejects_long() {
    let err = validate("0123456789ABCDEFG").unwrap_err();
    assert!(matches!(err, ValidationError::WrongLength { .. }));
}

#[test]
fn validate_rejects_lowercase() {
    let err = validate("0123456789abcdef").unwrap_err();
    assert!(matches!(err, ValidationError::InvalidCharacter));
}

#[test]
fn validate_rejects_spaces() {
    let err = validate("0123 4567 89AB CDEF").unwrap_err();
    assert!(matches!(err, ValidationError::WrongLength { .. }));
}

#[test]
fn normalize_strips_whitespace_and_uppercases() {
    assert_eq!(normalize("0123 4567 89ab cdef"), "0123456789ABCDEF");
    assert_eq!(normalize("\nFACE\n000000000ACE\n"), "FACE000000000ACE");
}

#[test]
fn enroll_argv_includes_passcode_and_json() {
    let argv = build_enroll_argv("FACE000000000ACE");
    assert_eq!(argv[0], "mded");
    assert_eq!(argv[1], "enroll");
    assert_eq!(argv[2], "--passcode");
    assert_eq!(argv[3], "FACE000000000ACE");
    assert_eq!(argv[4], "--json");
}

#[test]
fn error_display_describes_problem() {
    let s = ValidationError::WrongLength { got: 3, want: 16 }.message();
    assert!(s.contains("16"));
    assert!(s.contains('3'));
    let s = ValidationError::InvalidCharacter.message();
    assert!(s.to_lowercase().contains("uppercase") || s.to_lowercase().contains("digit"));
}

#[test]
fn parse_extracts_records() {
    let out = "\
Wired connection 1:enp3s0:ethernet:activated
Home Wifi:wlan0:wifi:
Backup Net::vpn:";
    let conns = parse_nmcli_connections(out);
    assert_eq!(conns.len(), 3);
    assert_eq!(conns[0].name, "Wired connection 1");
    assert_eq!(conns[0].device, "enp3s0");
    assert_eq!(conns[0].kind, "ethernet");
    assert_eq!(conns[0].state, "activated");
    assert!(conns[0].is_active());
}

#[test]
fn parse_skips_empty_lines() {
    let out = "\

a:b:c:d

x:y:z:activated
";
    let conns = parse_nmcli_connections(out);
    assert_eq!(conns.len(), 2);
}

#[test]
fn parse_skips_blank_name() {
    let out = ":enp3s0:ethernet:activated\nReal:wlan0:wifi:";
    let conns = parse_nmcli_connections(out);
    assert_eq!(conns.len(), 1);
    assert_eq!(conns[0].name, "Real");
}

#[test]
fn is_active_only_for_activated_state() {
    let c = NmConnection {
        name: "x".into(),
        device: "y".into(),
        kind: "z".into(),
        state: "activated".into(),
    };
    assert!(c.is_active());
    let c2 = NmConnection {
        state: "deactivated".into(),
        ..c.clone()
    };
    assert!(!c2.is_active());
}

#[test]
fn activate_argv_uses_connection_up() {
    let argv = build_activate_argv("Home Wifi");
    assert_eq!(argv, vec!["nmcli", "connection", "up", "Home Wifi"]);
}

#[test]
fn normalized_passcode_validates_and_errors_are_exact() {
    let n = normalize(" face 0000 0000 0ace ");
    assert!(validate(&n).is_ok());
    assert_eq!(validate(""), Err(ValidationError::WrongLength { got: 0, want: 16 }));
    assert_eq!(validate("0123456789ABCDEg"), Err(ValidationError::InvalidCharacter));
    assert_eq!(normalize("ß"), "SS");
}
