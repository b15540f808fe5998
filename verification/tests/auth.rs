use backend::auth::{
    bearer_header, bearer_token, check_user_authority, extract, has_authority, response_header_action,
    token_times, AuthDataInner, HeaderAction, LoggedInUser, LoggedInUserWithAuthorities, TokenTimes,
    UserData,
};
use backend::common::Status;

#[test]
fn bearer_token_parsing() {
    assert_eq!(bearer_token("Bearer abc.def.ghi"), Some("abc.def.ghi"));
    assert_eq!(bearer_token("Bearer "), Some(""));
    assert_eq!(bearer_token("bearer abc"), None);
    assert_eq!(bearer_token("Bearer"), None);
    assert_eq!(bearer_token("Basic abc"), None);
    assert_eq!(bearer_token(""), None);
}

#[test]
fn bearer_header_roundtrip() {
    let h = bearer_header("tok123");
    assert_eq!(h, "Bearer tok123");
    assert_eq!(bearer_token(&h), Some("tok123"));
}

#[test]
fn authorities_of_logged_in_user() {
    let user = UserData { id: 7, roles: vec!["Tournament Manager".to_string(), "Admin".to_string()] };
    let a = extract(Some(&user));
    assert_eq!(a, vec!["role::Tournament Manager", "role::Admin", "state::LoggedIn"]);
    assert_eq!(extract(None), vec!["state::LoggedOut"]);
    assert_eq!(extract(Some(&UserData::new(3))), vec!["state::LoggedIn"]);
}

#[test]
fn authority_checks() {
    let a = vec!["role::Tournament Manager".to_string(), "state::LoggedIn".to_string()];
    assert!(has_authority(&a, "role::Tournament Manager"));
    assert!(!has_authority(&a, "role::Admin"));
    assert!(check_user_authority(&a, "role::Tournament Manager").is_ok());
    let e = check_user_authority(&a, "role::Admin").unwrap_err();
    assert_eq!(e.status_code, Status::Forbidden);
    assert_eq!(e.status_code.code(), 403);
    assert_eq!(e.error.error, "user is missing \"role::Admin\" authority");
}

#[test]
fn logged_in_user_extraction() {
    let logged_out = AuthDataInner::new(None);
    let e = LoggedInUser::from_auth(&logged_out).err().unwrap();
    assert_eq!(e.status_code, Status::Unauthorized);
    assert_eq!(e.error.error, "not logged in");
    let logged_in = AuthDataInner::new(Some(UserData::new(42)));
    assert_eq!(LoggedInUser::from_auth(&logged_in).ok().unwrap().id, 42);
    let u = LoggedInUserWithAuthorities::from_auth(&logged_in, vec!["x".to_string()]).ok().unwrap();
    assert_eq!(u.id, 42);
    assert_eq!(u.authorities, vec!["x"]);
    assert!(LoggedInUserWithAuthorities::from_auth(&logged_out, vec![]).is_err());
}

#[test]
fn auth_state_changes() {
    let mut state = AuthDataInner::new(None);
    assert!(!state.changed);
    assert!(state.get_data().is_none());
    *state.get_data_mut() = Some(UserData::new(9));
    assert!(state.changed);
    assert_eq!(state.get_data().unwrap().id, 9);
}

#[test]
fn token_validity_times() {
    assert_eq!(token_times(1000, 60), TokenTimes { exp: 1060, iat: 1000, nbf: 1000 });
}

#[test]
fn response_header() {
    assert_eq!(response_header_action(true, true, false), HeaderAction::IssueToken);
    assert_eq!(response_header_action(true, false, true), HeaderAction::Remove);
    assert_eq!(response_header_action(false, true, true), HeaderAction::Echo);
    assert_eq!(response_header_action(false, false, false), HeaderAction::Keep);
}
