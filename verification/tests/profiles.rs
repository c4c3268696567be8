//! Profiles: sections, values and typed lookups.
use krb5_rs::profile::{conf_boolean, string_to_deltat, valid_name, Directive, FileParser, Profile, ProfileError};

const TEXT: &str = "# a comment
[libdefaults]
    default_realm = EXAMPLE.COM
    udp_preference_limit = 1
    dns_lookup_kdc = no
    ticket_lifetime = 1d 2h
    quoted = \"with \\\"quotes\\\" and \\n\"
[realms]
    EXAMPLE.COM = {
        kdc = kdc1.example.com
        kdc = kdc2.example.com:750
    }
    OTHER.COM = {
        kdc = kdc.other.com
    }
[libdefaults]
    default_realm = SECOND
";

#[test]
fn values_and_sections() {
    let p = Profile::parse(TEXT).expect("profile");
    assert_eq!(p.get_string(&["libdefaults", "default_realm"]).as_deref(), Some("EXAMPLE.COM"));
    assert_eq!(p.get_values(&["libdefaults", "default_realm"]), vec!["EXAMPLE.COM", "SECOND"]);
    assert_eq!(
        p.get_values(&["realms", "EXAMPLE.COM", "kdc"]),
        vec!["kdc1.example.com", "kdc2.example.com:750"]
    );
    assert_eq!(p.subsection_names(&["realms"]), vec!["EXAMPLE.COM", "OTHER.COM"]);
    assert_eq!(p.get_string(&["libdefaults", "absent"]), None);
    assert_eq!(p.get_string(&["libdefaults", "quoted"]).as_deref(), Some("with \"quotes\" and \n"));
}

#[test]
fn subsections_in_order() {
    let text = "[r]\n b = {\n x = 1\n }\n a = {\n }\n b = {\n x = 2\n }\n c = 3\n";
    let p = Profile::parse(text).expect("profile");
    assert_eq!(p.subsection_names(&["r"]), vec!["a", "b"]);
    assert_eq!(p.get_values(&["r", "b", "x"]), vec!["1", "2"]);
}

#[test]
fn typed_values() {
    let p = Profile::parse(TEXT).expect("profile");
    assert_eq!(p.get_integer(&["libdefaults", "udp_preference_limit"], 7).expect("integer"), 1);
    assert_eq!(p.get_integer(&["libdefaults", "absent"], 7).expect("default"), 7);
    assert!(matches!(
        p.get_integer(&["libdefaults", "default_realm"], 7),
        Err(ProfileError::BadInteger(s)) if s == "EXAMPLE.COM"
    ));
    assert!(!p.get_boolean(&["libdefaults", "dns_lookup_kdc"], true).expect("boolean"));
    assert!(matches!(p.get_boolean(&["libdefaults", "default_realm"], true), Err(ProfileError::BadBoolean(_))));
    assert_eq!(p.get_deltat(&["libdefaults", "ticket_lifetime"], 0).expect("deltat"), 93_600);
    assert!(matches!(p.get_deltat(&["libdefaults", "default_realm"], 0), Err(ProfileError::BadDeltat(_))));
}

#[test]
fn booleans() {
    for w in ["y", "YES", "true", "t", "1", "On"] {
        assert_eq!(conf_boolean(w), Some(true));
    }
    for w in ["n", "No", "false", "nil", "0", "OFF"] {
        assert_eq!(conf_boolean(w), Some(false));
    }
    assert_eq!(conf_boolean("maybe"), None);
}

#[test]
fn delta_times() {
    assert_eq!(string_to_deltat("100").expect("seconds"), 100);
    assert_eq!(string_to_deltat("1d").expect("day"), 86_400);
    assert_eq!(string_to_deltat("2h30m").expect("hours"), 9_000);
    assert_eq!(string_to_deltat("1:30").expect("clock"), 5_400);
    assert_eq!(string_to_deltat("1:30:15").expect("clock"), 5_415);
    assert!(string_to_deltat("").is_err());
    assert!(string_to_deltat("1x").is_err());
    assert!(string_to_deltat("99999999999").is_err());
}

#[test]
fn final_sections_win() {
    let p = Profile::parse("[a]*\nk = 1\n[a]\nk = 2\n").expect("profile");
    assert_eq!(p.get_values(&["a", "k"]), vec!["1"]);
}

#[test]
fn syntax_errors() {
    let e = Profile::parse("[libdefaults\n").expect_err("no bracket");
    assert!(matches!(e, ProfileError::Syntax { line: 1, .. }));
    let e = Profile::parse("[a]\nnothing here\n").expect_err("no equals sign");
    assert!(matches!(e, ProfileError::Syntax { line: 2, .. }));
    let directive = format!("{}de /etc/other.conf\n", "inclu");
    assert!(matches!(Profile::parse(&directive), Err(ProfileError::Directive { line: 1 })));
}

#[test]
fn directives_come_back() {
    let mut p = Profile::empty();
    let mut st = FileParser::new();
    let line = format!("{}dedir /etc/krb5.conf.d", "inclu");
    assert!(matches!(p.feed(&mut st, &line), Ok(Directive::Dir(d)) if d == "/etc/krb5.conf.d"));
    assert!(matches!(p.feed(&mut st, "[a]"), Ok(Directive::Nothing)));
    assert!(matches!(p.feed(&mut st, "k = v"), Ok(Directive::Nothing)));
    assert_eq!(p.get_string(&["a", "k"]).as_deref(), Some("v"));
}

#[test]
fn names_of_files_that_are_read() {
    for (name, ok) in [("local", true), ("my-realm_1", true), ("x.conf", true), (".hidden.conf", false), ("x.bak", false)] {
        assert_eq!(valid_name(name), ok, "{name}");
    }
}
