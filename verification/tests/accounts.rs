use backend::accounts::{
    already_logged_in, email_admission, email_is_valid, login_check, register_check, Admission, LoginData, RegisterData,
};

fn register(email: &str) -> RegisterData {
    RegisterData { nick: "nick".to_string(), email: email.to_string(), password: "pass".to_string() }
}

#[test]
fn email_validation() {
    assert_eq!(email_is_valid("testing-regular-user@test.test"), Some(true));
    assert_eq!(email_is_valid("a.b@c.de"), Some(true));
    assert_eq!(email_is_valid("not-an-email"), Some(false));
    assert_eq!(email_is_valid("a@b"), Some(false));
    assert_eq!(email_is_valid("Upper@Case.com"), Some(false));
}

#[test]
fn registration_checks() {
    match register_check(true, &register("testing-regular-user@test.test")) {
        Admission::Refused(r) => {
            assert_eq!(r.status.code(), 403);
            assert_eq!(r.error.unwrap().error, "already logged in");
        }
        _ => panic!("a logged-in user may not register"),
    }
    match register_check(false, &register("bad address")) {
        Admission::Refused(r) => {
            assert_eq!(r.status.code(), 400);
            assert_eq!(r.error.unwrap().error, "email is not valid");
        }
        _ => panic!("an invalid address is refused"),
    }
    assert!(matches!(register_check(false, &register("x.y@example.org")), Admission::Admitted));
}

#[test]
fn addresses_are_lowercased() {
    assert_eq!(register("Foo.Bar@Example.COM").normalized_email(), "foo.bar@example.com");
    let login = LoginData { email: "TESTING@Test.Test".to_string(), password: "pass".to_string() };
    assert_eq!(login.normalized_email(), "testing@test.test");
}

#[test]
fn login_checks() {
    assert!(login_check(true).is_ok());
    let r = login_check(false).unwrap_err();
    assert_eq!(r.status.code(), 400);
    assert_eq!(r.error.unwrap().error, "wrong credentials");
    assert!(already_logged_in(false).is_none());
    assert_eq!(already_logged_in(true).unwrap().status.code(), 403);
}

#[test]
fn email_admission_outcomes() {
    assert!(matches!(email_admission(Some(true)), Admission::Admitted));
    assert!(matches!(email_admission(None), Admission::PatternFailed));
    match email_admission(Some(false)) {
        Admission::Refused(r) => assert_eq!(r.status.code(), 400),
        _ => panic!("an invalid address is refused"),
    }
}
