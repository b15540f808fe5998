//! How the request handlers answer: the refusal that each endpoint sends
//! for each way its database call can fail, and the checks that handlers make
//! before or after that call.
use vstd::prelude::*;
use vstd::string::StringExecFns;

use crate::common::{Error, Status};

verus! {

/// The constraint class of a database error, as the driver reports it.
#[derive(Clone, Copy, Debug, PartialEq, Eq, Structural)]
pub enum DbErrorKind {
    UniqueViolation,
    ForeignKeyViolation,
    Other,
}

/// An error raised by the database itself.
#[derive(Debug)]
pub struct DatabaseFailure {
    pub kind: DbErrorKind,
    /// The SQLSTATE code, when the database sent one.
    pub code: Option<String>,
    /// The database's message.
    pub message: String,
    /// The error as the driver prints it.
    pub description: String,
}

/// How a database call failed.
#[derive(Debug)]
pub enum DbFailure {
    Database(DatabaseFailure),
    /// A query for one row found none.
    RowNotFound,
    /// Any other failure (connection, decoding, ...).
    Other,
}

/// The answer to a refused request: its status and its error body (`None`
/// for an empty JSON object).
#[derive(Debug)]
pub struct Refusal {
    pub status: Status,
    pub error: Option<Error>,
}

/// The view of a refusal: its status and its message.
pub open spec fn refusal_view(r: Refusal) -> (Status, Option<Seq<char>>) {
    (
        r.status,
        match r.error {
            Some(e) => Some(e.error@),
            None => None,
        },
    )
}

/// The endpoints of the service.
#[derive(Clone, Copy, Debug, PartialEq, Eq, Structural)]
pub enum Endpoint {
    GamesNew,
    GamesEdit,
    GamesGet,
    GamesGetAll,
    TournamentsNew,
    TournamentsEdit,
    TournamentsBracketCheck,
    TournamentsDelete,
    TournamentsGet,
    TournamentsGetAll,
    TournamentsApplyFor,
    TeamApplicationsGet,
    TeamApplicationsGetAll,
    TournamentsWithBracketTreesGetAll,
    BracketsNew,
    BracketsEdit,
    BracketsDelete,
    BracketsGet,
    BracketsGetAll,
    TeamsNew,
    TeamsEdit,
    TeamsDelete,
    TeamsGet,
    TeamsGetAll,
    TeamsLeaveTournament,
    ManagersRemove,
    PlayersInvite,
    PlayersHandleInvite,
    PlayersSetPlaying,
    PlayingGet,
    PlayingGetAll,
    TeamsWithMembersGet,
    TeamsWithMembersGetAll,
    UsersRegister,
    UsersLogin,
    UsersEdit,
    UsersGet,
    UsersGetAll,
    InvitesGet,
    InvitesGetAll,
}

/// How an endpoint answers the failures of its database call.
#[derive(Clone, Copy, Debug)]
pub struct ErrorRules {
    /// A missing row is answered 400 with this message (otherwise 500).
    pub not_found: Option<&'static str>,
    /// Database errors are answered 500 with an empty body.
    pub database_internal: bool,
    /// Database errors are answered 400 with the database's message.
    pub database_message: bool,
    /// Unique-constraint violations are answered with this status and message.
    pub unique: Option<(Status, &'static str)>,
    /// Foreign-key violations are answered 400 with this message.
    pub foreign_key: Option<&'static str>,
    /// Errors raised with code `66666` are answered 403 with their message.
    pub forbidden_code: bool,
    /// Errors raised with code `44444` are answered 400 with their message.
    pub invalid_code: bool,
}

/// A message slot holds the message `m`.
pub open spec fn holds(slot: Option<&'static str>, m: Option<Seq<char>>) -> bool {
    match (slot, m) {
        (Some(s), Some(t)) => s@ == t,
        (None, None) => true,
        _ => false,
    }
}

/// The unique-violation slot holds status `st` and message `m`.
pub open spec fn holds_unique(slot: Option<(Status, &'static str)>, u: Option<(Status, Seq<char>)>) -> bool {
    match (slot, u) {
        (Some((s, t)), Some((st, m))) => s == st && t@ == m,
        (None, None) => true,
        _ => false,
    }
}

/// The rules of an endpoint whose database errors are classified.
pub open spec fn classified(
    r: ErrorRules,
    not_found: Option<Seq<char>>,
    unique: Option<(Status, Seq<char>)>,
    foreign_key: Option<Seq<char>>,
    forbidden_code: bool,
    invalid_code: bool,
) -> bool {
    &&& holds(r.not_found, not_found)
    &&& !r.database_internal
    &&& !r.database_message
    &&& holds_unique(r.unique, unique)
    &&& holds(r.foreign_key, foreign_key)
    &&& r.forbidden_code == forbidden_code
    &&& r.invalid_code == invalid_code
}

/// The rules of an endpoint that answers every database error 500.
pub open spec fn internal(r: ErrorRules, not_found: Option<Seq<char>>) -> bool {
    &&& holds(r.not_found, not_found)
    &&& r.database_internal
    &&& !r.database_message
    &&& r.unique is None
    &&& r.foreign_key is None
    &&& !r.forbidden_code
    &&& !r.invalid_code
}

/// The error rules of each endpoint.
pub open spec fn endpoint_rules(e: Endpoint, r: ErrorRules) -> bool {
    match e {
        Endpoint::GamesNew => classified(r, None, Some((Status::BadRequest, "request for new game violates unique constraints"@)), None, false, false),
        Endpoint::GamesEdit => classified(r, None, Some((Status::BadRequest, "request for game edit violates unique constraints"@)), None, false, false),
        Endpoint::GamesGet => internal(r, Some("game not found"@)),
        Endpoint::GamesGetAll => internal(r, None),
        Endpoint::TournamentsNew => classified(
            r,
            None,
            Some((Status::BadRequest, "request for new tournament violates unique constraints"@)),
            Some("request for new tournament violates foreign key constraints (game id doesn't exists)"@),
            false,
            false,
        ),
        Endpoint::TournamentsEdit => classified(
            r,
            None,
            Some((Status::BadRequest, "request for tournament edit violates unique constraints"@)),
            Some("request for tournament edit violates foreign key constraints (game id doesn't exists)"@),
            false,
            true,
        ),
        Endpoint::TournamentsBracketCheck => classified(r, None, None, None, false, false),
        Endpoint::TournamentsDelete => internal(r, None),
        Endpoint::TournamentsGet => internal(r, Some("tournament not found"@)),
        Endpoint::TournamentsGetAll => internal(r, None),
        Endpoint::TournamentsApplyFor => classified(r, None, None, None, true, true),
        Endpoint::TeamApplicationsGet => internal(r, Some("tournament not found"@)),
        Endpoint::TeamApplicationsGetAll => internal(r, None),
        Endpoint::TournamentsWithBracketTreesGetAll => internal(r, None),
        Endpoint::BracketsNew => classified(
            r,
            None,
            Some((Status::BadRequest, "request for new bracket violates unique constraints"@)),
            Some("request for new bracket violates foreign key constraints (bracket_tree_id, team1, team2)"@),
            false,
            false,
        ),
        Endpoint::BracketsEdit => classified(
            r,
            None,
            Some((Status::BadRequest, "request for bracket edit violates unique constraints"@)),
            Some("request for bracket edit violates foreign key constraints (bracket_tree_id, team1, team2)"@),
            false,
            false,
        ),
        Endpoint::BracketsDelete => internal(r, None),
        Endpoint::BracketsGet => internal(r, Some("bracket not found"@)),
        Endpoint::BracketsGetAll => internal(r, None),
        Endpoint::TeamsNew => classified(r, None, Some((Status::BadRequest, "request for new team violates unique constraints"@)), None, false, false),
        Endpoint::TeamsEdit => classified(r, None, Some((Status::BadRequest, "request for team edit violates unique constraints"@)), None, true, true),
        Endpoint::TeamsDelete => classified(r, None, None, None, true, true),
        Endpoint::TeamsGet => internal(r, Some("team not found"@)),
        Endpoint::TeamsGetAll => internal(r, None),
        Endpoint::TeamsLeaveTournament => classified(r, None, None, None, true, true),
        Endpoint::ManagersRemove => classified(r, None, None, None, true, true),
        Endpoint::PlayersInvite => classified(
            r,
            None,
            None,
            Some("inviting users to team failed - foreign key constraints violation (team_id, player_id)"@),
            true,
            true,
        ),
        Endpoint::PlayersHandleInvite => {
            &&& r.not_found is None
            &&& !r.database_internal
            &&& r.database_message
        },
        Endpoint::PlayersSetPlaying => classified(r, None, Some((Status::Forbidden, "user is already playing for another team"@)), None, true, true),
        Endpoint::PlayingGet => internal(r, Some("not signed up for this tournament or tournament doesn't exists"@)),
        Endpoint::PlayingGetAll => internal(r, None),
        Endpoint::TeamsWithMembersGet => internal(r, None),
        Endpoint::TeamsWithMembersGetAll => internal(r, None),
        Endpoint::UsersRegister => classified(r, None, Some((Status::BadRequest, "register request violates unique constraints"@)), None, false, false),
        Endpoint::UsersLogin => classified(r, Some("user doesn't exist"@), None, None, false, false),
        Endpoint::UsersEdit => classified(r, None, Some((Status::BadRequest, "request for user edit violates unique constraints"@)), None, false, false),
        Endpoint::UsersGet => internal(r, Some("user not found"@)),
        Endpoint::UsersGetAll => internal(r, None),
        Endpoint::InvitesGet => internal(r, Some("user not found"@)),
        Endpoint::InvitesGetAll => internal(r, Some("user not found"@)),
    }
}

/// Rules that classify database errors.
fn classify(
    not_found: Option<&'static str>,
    unique: Option<(Status, &'static str)>,
    foreign_key: Option<&'static str>,
    forbidden_code: bool,
    invalid_code: bool,
) -> (r: ErrorRules)
    ensures
        r.not_found == not_found,
        !r.database_internal,
        !r.database_message,
        r.unique == unique,
        r.foreign_key == foreign_key,
        r.forbidden_code == forbidden_code,
        r.invalid_code == invalid_code,
{
    ErrorRules {
        not_found,
        database_internal: false,
        database_message: false,
        unique,
        foreign_key,
        forbidden_code,
        invalid_code,
    }
}

/// Rules that answer every database error 500.
fn internal_only(not_found: Option<&'static str>) -> (r: ErrorRules)
    ensures
        r.not_found == not_found,
        r.database_internal,
        !r.database_message,
        r.unique is None,
        r.foreign_key is None,
        !r.forbidden_code,
        !r.invalid_code,
{
    ErrorRules {
        not_found,
        database_internal: true,
        database_message: false,
        unique: None,
        foreign_key: None,
        forbidden_code: false,
        invalid_code: false,
    }
}

/// The error rules of an endpoint.
pub fn error_rules(e: Endpoint) -> (r: ErrorRules)
    ensures
        endpoint_rules(e, r),
{
    match e {
        Endpoint::GamesNew => classify(None, Some((Status::BadRequest, "request for new game violates unique constraints")), None, false, false),
        Endpoint::GamesEdit => classify(None, Some((Status::BadRequest, "request for game edit violates unique constraints")), None, false, false),
        Endpoint::GamesGet => internal_only(Some("game not found")),
        Endpoint::GamesGetAll => internal_only(None),
        Endpoint::TournamentsNew => classify(
            None,
            Some((Status::BadRequest, "request for new tournament violates unique constraints")),
            Some("request for new tournament violates foreign key constraints (game id doesn't exists)"),
            false,
            false,
        ),
        Endpoint::TournamentsEdit => classify(
            None,
            Some((Status::BadRequest, "request for tournament edit violates unique constraints")),
            Some("request for tournament edit violates foreign key constraints (game id doesn't exists)"),
            false,
            true,
        ),
        Endpoint::TournamentsBracketCheck => classify(None, None, None, false, false),
        Endpoint::TournamentsDelete => internal_only(None),
        Endpoint::TournamentsGet => internal_only(Some("tournament not found")),
        Endpoint::TournamentsGetAll => internal_only(None),
        Endpoint::TournamentsApplyFor => classify(None, None, None, true, true),
        Endpoint::TeamApplicationsGet => internal_only(Some("tournament not found")),
        Endpoint::TeamApplicationsGetAll => internal_only(None),
        Endpoint::TournamentsWithBracketTreesGetAll => internal_only(None),
        Endpoint::BracketsNew => classify(
            None,
            Some((Status::BadRequest, "request for new bracket violates unique constraints")),
            Some("request for new bracket violates foreign key constraints (bracket_tree_id, team1, team2)"),
            false,
            false,
        ),
        Endpoint::BracketsEdit => classify(
            None,
            Some((Status::BadRequest, "request for bracket edit violates unique constraints")),
            Some("request for bracket edit violates foreign key constraints (bracket_tree_id, team1, team2)"),
            false,
            false,
        ),
        Endpoint::BracketsDelete => internal_only(None),
        Endpoint::BracketsGet => internal_only(Some("bracket not found")),
        Endpoint::BracketsGetAll => internal_only(None),
        Endpoint::TeamsNew => classify(None, Some((Status::BadRequest, "request for new team violates unique constraints")), None, false, false),
        Endpoint::TeamsEdit => classify(None, Some((Status::BadRequest, "request for team edit violates unique constraints")), None, true, true),
        Endpoint::TeamsDelete => classify(None, None, None, true, true),
        Endpoint::TeamsGet => internal_only(Some("team not found")),
        Endpoint::TeamsGetAll => internal_only(None),
        Endpoint::TeamsLeaveTournament => classify(None, None, None, true, true),
        Endpoint::ManagersRemove => classify(None, None, None, true, true),
        Endpoint::PlayersInvite => classify(
            None,
            None,
            Some("inviting users to team failed - foreign key constraints violation (team_id, player_id)"),
            true,
            true,
        ),
        Endpoint::PlayersHandleInvite => ErrorRules {
            not_found: None,
            database_internal: false,
            database_message: true,
            unique: None,
            foreign_key: None,
            forbidden_code: false,
            invalid_code: false,
        },
        Endpoint::PlayersSetPlaying => classify(None, Some((Status::Forbidden, "user is already playing for another team")), None, true, true),
        Endpoint::PlayingGet => internal_only(Some("not signed up for this tournament or tournament doesn't exists")),
        Endpoint::PlayingGetAll => internal_only(None),
        Endpoint::TeamsWithMembersGet => internal_only(None),
        Endpoint::TeamsWithMembersGetAll => internal_only(None),
        Endpoint::UsersRegister => classify(None, Some((Status::BadRequest, "register request violates unique constraints")), None, false, false),
        Endpoint::UsersLogin => classify(Some("user doesn't exist"), None, None, false, false),
        Endpoint::UsersEdit => classify(None, Some((Status::BadRequest, "request for user edit violates unique constraints")), None, false, false),
        Endpoint::UsersGet => internal_only(Some("user not found")),
        Endpoint::UsersGetAll => internal_only(None),
        Endpoint::InvitesGet => internal_only(Some("user not found")),
        Endpoint::InvitesGetAll => internal_only(Some("user not found")),
    }
}

/// The SQLSTATE code is `code`.
pub open spec fn has_code(f: DatabaseFailure, code: Seq<char>) -> bool {
    f.code matches Some(c) && c@ == code
}

/// The message of a database error that no rule covers.
pub open spec fn unhandled_message(f: DatabaseFailure) -> Seq<char> {
    "unhandled error - "@ + f.description@
}

/// How an endpoint with rules `r` answers a database error `f`.
pub open spec fn database_refusal(r: ErrorRules, f: DatabaseFailure) -> (Status, Option<Seq<char>>) {
    if r.database_internal {
        (Status::InternalServerError, None)
    } else if r.database_message {
        (Status::BadRequest, Some(f.message@))
    } else if f.kind == DbErrorKind::UniqueViolation && r.unique is Some {
        (r.unique->Some_0.0, Some(r.unique->Some_0.1@))
    } else if f.kind == DbErrorKind::ForeignKeyViolation && r.foreign_key is Some {
        (Status::BadRequest, Some(r.foreign_key->Some_0@))
    } else if r.forbidden_code && has_code(f, "66666"@) {
        (Status::Forbidden, Some(f.message@))
    } else if r.invalid_code && has_code(f, "44444"@) {
        (Status::BadRequest, Some(f.message@))
    } else {
        (Status::BadRequest, Some(unhandled_message(f)))
    }
}

/// How an endpoint with rules `r` answers a failure `f`.
pub open spec fn refusal_spec(r: ErrorRules, f: DbFailure) -> (Status, Option<Seq<char>>) {
    match f {
        DbFailure::Database(d) => database_refusal(r, d),
        DbFailure::RowNotFound => match r.not_found {
            Some(m) => (Status::BadRequest, Some(m@)),
            None => (Status::InternalServerError, None),
        },
        DbFailure::Other => (Status::InternalServerError, None),
    }
}

/// Whether `code` is the given SQLSTATE code.
fn code_is(code: &Option<String>, expected: &str) -> (r: bool)
    ensures
        r <==> (code matches Some(c) && c@ == expected@),
{
    match code {
        Some(c) => *c == String::from_str(expected),
        None => false,
    }
}

/// A refusal with a message.
fn refusal_with(status: Status, message: String) -> (r: Refusal)
    ensures
        refusal_view(r) == (status, Some(message@)),
{
    Refusal { status, error: Some(Error::new(message)) }
}

/// The endpoints whose database procedure signals a forbidden action by
/// raising an error with SQLSTATE code `66666`.
pub open spec fn raises_forbidden_code(e: Endpoint) -> bool {
    ||| e == Endpoint::TeamsDelete
    ||| e == Endpoint::TeamsEdit
    ||| e == Endpoint::TeamsLeaveTournament
    ||| e == Endpoint::ManagersRemove
    ||| e == Endpoint::PlayersInvite
    ||| e == Endpoint::PlayersSetPlaying
    ||| e == Endpoint::TournamentsApplyFor
}

/// The endpoints whose database procedure signals an invalid request by
/// raising an error with SQLSTATE code `44444`.
pub open spec fn raises_invalid_code(e: Endpoint) -> bool {
    ||| raises_forbidden_code(e)
    ||| e == Endpoint::TournamentsEdit
}

/// A database error that is neither a unique nor a foreign-key violation and
/// carries SQLSTATE code `code`.
pub open spec fn raised_with_code(f: DbFailure, code: Seq<char>) -> bool {
    match f {
        DbFailure::Database(d) => d.kind == DbErrorKind::Other && has_code(d, code),
        _ => false,
    }
}

/// The database's own message of a database error.
pub open spec fn database_message_of(f: DbFailure) -> Seq<char> {
    match f {
        DbFailure::Database(d) => d.message@,
        _ => Seq::empty(),
    }
}

/// The endpoints that answer every database error 500 with an empty body.
pub open spec fn database_errors_internal(e: Endpoint) -> bool {
    ||| e == Endpoint::GamesGet
    ||| e == Endpoint::GamesGetAll
    ||| e == Endpoint::TournamentsDelete
    ||| e == Endpoint::TournamentsGet
    ||| e == Endpoint::TournamentsGetAll
    ||| e == Endpoint::TeamApplicationsGet
    ||| e == Endpoint::TeamApplicationsGetAll
    ||| e == Endpoint::TournamentsWithBracketTreesGetAll
    ||| e == Endpoint::BracketsDelete
    ||| e == Endpoint::BracketsGet
    ||| e == Endpoint::BracketsGetAll
    ||| e == Endpoint::TeamsGet
    ||| e == Endpoint::TeamsGetAll
    ||| e == Endpoint::PlayingGet
    ||| e == Endpoint::PlayingGetAll
    ||| e == Endpoint::TeamsWithMembersGet
    ||| e == Endpoint::TeamsWithMembersGetAll
    ||| e == Endpoint::UsersGet
    ||| e == Endpoint::UsersGetAll
    ||| e == Endpoint::InvitesGet
    ||| e == Endpoint::InvitesGetAll
}

/// An endpoint whose procedure raises code `66666` for a forbidden action
/// answers such an error 403 Forbidden with the database's message; one
/// whose procedure raises code `44444` for an invalid request answers it 400
/// Bad Request with the database's message; and a read-only endpoint answers
/// every database error 500 with an empty body.
pub proof fn law_raised_codes_answered(e: Endpoint, rules: ErrorRules, f: DbFailure)
    requires
        endpoint_rules(e, rules),
    ensures
        raises_forbidden_code(e) && raised_with_code(f, "66666"@) ==> refusal_spec(rules, f) == (
            Status::Forbidden,
            Some(database_message_of(f)),
        ),
        raises_invalid_code(e) && raised_with_code(f, "44444"@) ==> refusal_spec(rules, f) == (
            Status::BadRequest,
            Some(database_message_of(f)),
        ),
        database_errors_internal(e) && f is Database ==> refusal_spec(rules, f) == (
            Status::InternalServerError,
            None::<Seq<char>>,
        ),
{
    if raised_with_code(f, "44444"@) {
        reveal_strlit("44444");
        reveal_strlit("66666");
        assert("44444"@[0] != "66666"@[0]);
        assert(!raised_with_code(f, "66666"@));
    }
}

/// The answer of endpoint `endpoint` when its database call fails with
/// `failure`.
pub fn refuse(endpoint: Endpoint, failure: &DbFailure) -> (r: Refusal)
    ensures
        forall|rules: ErrorRules| endpoint_rules(endpoint, rules) ==> refusal_view(r) == refusal_spec(rules, *failure),
        raises_forbidden_code(endpoint) && raised_with_code(*failure, "66666"@) ==> refusal_view(r) == (
            Status::Forbidden,
            Some(database_message_of(*failure)),
        ),
        raises_invalid_code(endpoint) && raised_with_code(*failure, "44444"@) ==> refusal_view(r) == (
            Status::BadRequest,
            Some(database_message_of(*failure)),
        ),
        database_errors_internal(endpoint) && *failure is Database ==> refusal_view(r) == (
            Status::InternalServerError,
            None::<Seq<char>>,
        ),
{
    let rules = error_rules(endpoint);
    let r = match failure {
        DbFailure::RowNotFound => match rules.not_found {
            Some(m) => refusal_with(Status::BadRequest, String::from_str(m)),
            None => Refusal { status: Status::InternalServerError, error: None },
        },
        DbFailure::Other => Refusal { status: Status::InternalServerError, error: None },
        DbFailure::Database(f) => {
            if rules.database_internal {
                Refusal { status: Status::InternalServerError, error: None }
            } else if rules.database_message {
                refusal_with(Status::BadRequest, f.message.clone())
            } else if f.kind == DbErrorKind::UniqueViolation && rules.unique.is_some() {
                let (status, m) = rules.unique.unwrap();
                refusal_with(status, String::from_str(m))
            } else if f.kind == DbErrorKind::ForeignKeyViolation && rules.foreign_key.is_some() {
                refusal_with(Status::BadRequest, String::from_str(rules.foreign_key.unwrap()))
            } else if rules.forbidden_code && code_is(&f.code, "66666") {
                refusal_with(Status::Forbidden, f.message.clone())
            } else if rules.invalid_code && code_is(&f.code, "44444") {
                refusal_with(Status::BadRequest, f.message.clone())
            } else {
                let mut m = String::from_str("unhandled error - ");
                m.append(f.description.as_str());
                refusal_with(Status::BadRequest, m)
            }
        },
    };
    proof {
        assert forall|other: ErrorRules| endpoint_rules(endpoint, other) implies refusal_view(r) == refusal_spec(
            other,
            *failure,
        ) by {
            lemma_rules_unique(endpoint, rules, other);
        }
        law_raised_codes_answered(endpoint, rules, *failure);
    }
    r
}

/// An endpoint's rules are determined up to the views of their messages.
proof fn lemma_rules_unique(e: Endpoint, a: ErrorRules, b: ErrorRules)
    requires
        endpoint_rules(e, a),
        endpoint_rules(e, b),
    ensures
        forall|f: DbFailure| refusal_spec(a, f) == refusal_spec(b, f),
{
}

} // verus!
