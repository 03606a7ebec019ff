use steps::EmailString;

#[test]
fn accepts_plain_addresses() {
    let e = EmailString::new("sssss@gmail.com");
    assert_eq!(e.0, Some("sssss@gmail.com".to_string()));

    let e = EmailString::new("hello@gmail.com");
    assert_eq!(e.0, Some("hello@gmail.com".to_string()));

    let e = EmailString::new("a@b.c");
    assert_eq!(e.0, Some("a@b.c".to_string()));
}

#[test]
fn rejects_missing_or_repeated_at() {
    assert_eq!(EmailString::new("gmail.com").0, None);
    assert_eq!(EmailString::new("a@b@c.com").0, None);
    assert_eq!(EmailString::new("").0, None);
}

#[test]
fn rejects_empty_or_oversized_local_part() {
    assert_eq!(EmailString::new("@gmail.com").0, None);

    // 64 bytes of local part pass, 65 do not.
    let local_64 = "a".repeat(64);
    let local_65 = "a".repeat(65);
    assert!(EmailString::new(&format!("{}@gmail.com", local_64)).0.is_some());
    assert_eq!(EmailString::new(&format!("{}@gmail.com", local_65)).0, None);
}

#[test]
fn rejects_domain_without_dot() {
    assert_eq!(EmailString::new("hello@gmailcom").0, None);
}

#[test]
fn rejects_prohibited_characters() {
    assert_eq!(EmailString::new("he llo@gmail.com").0, None);
    assert_eq!(EmailString::new("hello@gma,il.com").0, None);
    assert_eq!(EmailString::new("hel;lo@gmail.com").0, None);
    assert_eq!(EmailString::new("<hello@gmail.com").0, None);
    assert_eq!(EmailString::new("hello@gmail.com>").0, None);
    assert_eq!(EmailString::new("hello@[gmail.com").0, None);
    assert_eq!(EmailString::new("hello@gmail.com]").0, None);
    assert_eq!(EmailString::new("\"hello\"@gmail.com").0, None);
}
