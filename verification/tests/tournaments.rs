use backend::common::{split_by_flag, Error, JsonError, Status};
use backend::requests::{DatabaseFailure, DbErrorKind, DbFailure};
use backend::tournaments::{
    applications_closed_flag, closing_request, default_number_of_final_places, generation_decision,
    generation_failed, leave_tournament_answer, ApplicationsClosed,
};

#[test]
fn final_places_default() {
    assert_eq!(default_number_of_final_places(), 3);
}

#[test]
fn applications_flags() {
    let closed = Some(ApplicationsClosed::True { number_of_final_places: 4, regenerate_brackets: true });
    assert_eq!(applications_closed_flag(&closed), Some(true));
    assert_eq!(closing_request(&closed), Some((4, true)));
    assert_eq!(applications_closed_flag(&Some(ApplicationsClosed::False)), Some(false));
    assert_eq!(closing_request(&Some(ApplicationsClosed::False)), None);
    assert_eq!(applications_closed_flag(&None), None);
}

#[test]
fn bracket_regeneration() {
    assert!(generation_decision(Ok(false), false).is_ok());
    assert!(generation_decision(Ok(true), true).is_ok());
    let r = generation_decision(Ok(true), false).unwrap_err();
    assert_eq!(r.status.code(), 400);
    assert_eq!(
        r.error.unwrap().error,
        "Tournament already has brackets generated. If you wish to regenerate them set 'regenerate_brackets' to true."
    );
    let failure = DbFailure::Database(DatabaseFailure {
        kind: DbErrorKind::Other,
        code: None,
        message: "m".to_string(),
        description: "d".to_string(),
    });
    let r = generation_decision(Err(failure), true).unwrap_err();
    assert_eq!(r.status.code(), 400);
    assert_eq!(r.error.unwrap().error, "unhandled error - d");
    assert_eq!(generation_decision(Err(DbFailure::Other), true).unwrap_err().status.code(), 500);
    let r = generation_failed();
    assert_eq!(r.status.code(), 500);
    assert_eq!(r.error.unwrap().error, "Edit was successful, but bracket generation failed!");
}

#[test]
fn leaving_a_tournament() {
    assert_eq!(leave_tournament_answer(Some(true)).ok(), Some(false));
    assert_eq!(leave_tournament_answer(Some(false)).ok(), Some(true));
    assert_eq!(leave_tournament_answer(None).unwrap_err().status.code(), 500);
}

#[test]
fn error_bodies() {
    let e = Error::new("boom".to_string());
    assert_eq!(e.error, "boom");
    let j = JsonError::new(e, Status::Unauthorized);
    assert_eq!(j.status_code.code(), 401);
    assert_eq!(j.error.error, "boom");
}

#[test]
fn splitting_by_flag() {
    let (valid, invalid) = split_by_flag(&[(1, true), (2, false), (3, true), (4, false), (5, false)]);
    assert_eq!(valid, vec![1, 3]);
    assert_eq!(invalid, vec![2, 4, 5]);
    assert_eq!(valid.len() + invalid.len(), 5);
    let (a, b) = split_by_flag(&[]);
    assert!(a.is_empty() && b.is_empty());
}
