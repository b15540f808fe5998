//! Decisions of the tournament handlers: closing applications (and with it
//! generating brackets), and a team leaving a tournament.
use vstd::prelude::*;
use vstd::string::StringExecFns;

use crate::common::{Error, Status};
use crate::requests::{
    endpoint_rules, refusal_spec, refusal_view, refuse, DbFailure, Endpoint, ErrorRules, Refusal,
};

verus! {

/// The applications state requested by a tournament edit: closed (with the
/// number of final places to decide, at least one, and whether existing
/// brackets are to be regenerated) or open.
pub enum ApplicationsClosed {
    True { number_of_final_places: u32, regenerate_brackets: bool },
    False,
}

/// The number of final places decided when a request does not say.
pub fn default_number_of_final_places() -> (r: u32)
    ensures
        r == 3,
{
    3
}

/// The stored `applications_closed` flag that an edit writes, if any.
pub fn applications_closed_flag(a: &Option<ApplicationsClosed>) -> (r: Option<bool>)
    ensures
        match a {
            None => r is None,
            Some(ApplicationsClosed::False) => r == Some(false),
            Some(ApplicationsClosed::True { .. }) => r == Some(true),
        },
{
    match a {
        None => None,
        Some(ApplicationsClosed::False) => Some(false),
        Some(ApplicationsClosed::True { .. }) => Some(true),
    }
}

/// Whether an edit closes applications, and with which number of final
/// places and regeneration wish.
pub fn closing_request(a: &Option<ApplicationsClosed>) -> (r: Option<(u32, bool)>)
    ensures
        match a {
            Some(ApplicationsClosed::True { number_of_final_places, regenerate_brackets }) => r == Some(
                (*number_of_final_places, *regenerate_brackets),
            ),
            _ => r is None,
        },
{
    match a {
        Some(ApplicationsClosed::True { number_of_final_places, regenerate_brackets }) => Some(
            (*number_of_final_places, *regenerate_brackets),
        ),
        _ => None,
    }
}

/// The refusal of a close request on a tournament that already has
/// brackets, when regeneration was not asked for.
pub open spec fn already_generated_message() -> Seq<char> {
    "Tournament already has brackets generated. If you wish to regenerate them set 'regenerate_brackets' to true."@
}

/// Whether brackets are (re)generated when applications close: yes when
/// the tournament has none yet or regeneration was asked for; a tournament
/// with brackets is otherwise refused 400; a failed lookup is refused as
/// `Endpoint::TournamentsBracketCheck` says.
pub fn generation_decision(existing: Result<bool, DbFailure>, regenerate: bool) -> (r: Result<(), Refusal>)
    ensures
        existing matches Ok(has_brackets) ==> (r is Ok <==> (!has_brackets || regenerate)),
        existing is Ok && r is Err ==> refusal_view(r->Err_0) == (
            Status::BadRequest,
            Some(already_generated_message()),
        ),
        existing matches Err(f) ==> (r matches Err(x) && forall|rules: ErrorRules|
            endpoint_rules(Endpoint::TournamentsBracketCheck, rules) ==> refusal_view(x) == refusal_spec(
                rules,
                f,
            )),
{
    match existing {
        Ok(has_brackets) => {
            if !has_brackets || regenerate {
                Ok(())
            } else {
                Err(
                    Refusal {
                        status: Status::BadRequest,
                        error: Some(
                            Error::new(
                                String::from_str(
                                    "Tournament already has brackets generated. If you wish to regenerate them set 'regenerate_brackets' to true.",
                                ),
                            ),
                        ),
                    },
                )
            }
        },
        Err(f) => Err(refuse(Endpoint::TournamentsBracketCheck, &f)),
    }
}

/// The answer when the edit succeeded but generating brackets failed.
pub fn generation_failed() -> (r: Refusal)
    ensures
        refusal_view(r) == (Status::InternalServerError, Some("Edit was successful, but bracket generation failed!"@)),
{
    Refusal {
        status: Status::InternalServerError,
        error: Some(Error::new(String::from_str("Edit was successful, but bracket generation failed!"))),
    }
}

/// The answer to a team leaving a tournament, given what the database
/// procedure returned: whether the brackets could be adjusted on their own.
/// The response reports `manual_edit_needed` as the negation; a missing
/// value is an internal error.
pub fn leave_tournament_answer(handled: Option<bool>) -> (r: Result<bool, Refusal>)
    ensures
        handled matches Some(v) ==> r == Ok::<bool, Refusal>(!v),
        handled is None ==> (r matches Err(x) && refusal_view(x) == (Status::InternalServerError, None::<Seq<char>>)),
{
    match handled {
        Some(v) => Ok(!v),
        None => Err(Refusal { status: Status::InternalServerError, error: None }),
    }
}

} // verus!
