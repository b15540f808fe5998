use backend::common::Status;
use backend::requests::{refuse, DatabaseFailure, DbErrorKind, DbFailure, Endpoint, Refusal};

fn db(kind: DbErrorKind, code: Option<&str>) -> DbFailure {
    DbFailure::Database(DatabaseFailure {
        kind,
        code: code.map(|c| c.to_string()),
        message: "procedure says no".to_string(),
        description: "error returned from database: procedure says no".to_string(),
    })
}

fn view(r: Refusal) -> (u16, Option<String>) {
    (r.status.code(), r.error.map(|e| e.error))
}

#[test]
fn procedure_codes() {
    assert_eq!(
        view(refuse(Endpoint::TournamentsApplyFor, &db(DbErrorKind::Other, Some("66666")))),
        (403, Some("procedure says no".to_string()))
    );
    assert_eq!(
        view(refuse(Endpoint::TournamentsApplyFor, &db(DbErrorKind::Other, Some("44444")))),
        (400, Some("procedure says no".to_string()))
    );
    assert_eq!(
        view(refuse(Endpoint::TournamentsApplyFor, &db(DbErrorKind::Other, Some("P0001")))),
        (400, Some("unhandled error - error returned from database: procedure says no".to_string()))
    );
    // tournament edits do not treat code 66666 specially
    assert_eq!(
        view(refuse(Endpoint::TournamentsEdit, &db(DbErrorKind::Other, Some("66666")))),
        (400, Some("unhandled error - error returned from database: procedure says no".to_string()))
    );
}

#[test]
fn constraint_violations() {
    assert_eq!(
        view(refuse(Endpoint::GamesNew, &db(DbErrorKind::UniqueViolation, Some("23505")))),
        (400, Some("request for new game violates unique constraints".to_string()))
    );
    assert_eq!(
        view(refuse(Endpoint::PlayersSetPlaying, &db(DbErrorKind::UniqueViolation, Some("23505")))),
        (403, Some("user is already playing for another team".to_string()))
    );
    assert_eq!(
        view(refuse(Endpoint::TournamentsNew, &db(DbErrorKind::ForeignKeyViolation, Some("23503")))),
        (400, Some("request for new tournament violates foreign key constraints (game id doesn't exists)".to_string()))
    );
    assert_eq!(
        view(refuse(Endpoint::PlayersInvite, &db(DbErrorKind::ForeignKeyViolation, Some("23503")))),
        (400, Some("inviting users to team failed - foreign key constraints violation (team_id, player_id)".to_string()))
    );
    // an unhandled unique violation falls through to the generic message
    assert_eq!(
        view(refuse(Endpoint::TeamsDelete, &db(DbErrorKind::UniqueViolation, Some("23505")))).0,
        400
    );
}

#[test]
fn missing_rows_and_other_failures() {
    assert_eq!(view(refuse(Endpoint::GamesGet, &DbFailure::RowNotFound)), (400, Some("game not found".to_string())));
    assert_eq!(view(refuse(Endpoint::UsersLogin, &DbFailure::RowNotFound)), (400, Some("user doesn't exist".to_string())));
    assert_eq!(view(refuse(Endpoint::GamesGetAll, &DbFailure::RowNotFound)), (500, None));
    assert_eq!(view(refuse(Endpoint::GamesGet, &DbFailure::Other)), (500, None));
    assert_eq!(view(refuse(Endpoint::GamesGet, &db(DbErrorKind::Other, None))), (500, None));
    assert_eq!(
        view(refuse(Endpoint::PlayersHandleInvite, &db(DbErrorKind::Other, None))),
        (400, Some("procedure says no".to_string()))
    );
    assert_eq!(
        view(refuse(Endpoint::UsersLogin, &db(DbErrorKind::Other, None))),
        (400, Some("unhandled error - error returned from database: procedure says no".to_string()))
    );
    assert_eq!(Status::Success.code(), 200);
    assert_eq!(Status::InternalServerError.code(), 500);
}
