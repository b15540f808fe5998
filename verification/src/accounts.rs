//! Registration and login: who may register or log in, which e-mail
//! addresses are accepted, and how addresses are normalised.
use vstd::prelude::*;
use vstd::string::StringExecFns;

use crate::common::Status;
use crate::requests::{refusal_view, Refusal};

verus! {

/// The pattern that a registration e-mail address must match: a dot-atom
/// local part, `@`, a dotted domain, 5 to 320 characters in all.
pub const EMAIL_PATTERN: &'static str = "(?=^[a-z0-9!#$%&'*+/=?^_`{|}~-]+(?:\\.[a-z0-9!#$%&'*+/=?^_`{|}~-]+)*@(?:[a-z0-9](?:[a-z0-9-]*[a-z0-9])?\\.)+[a-z0-9](?:[a-z0-9-]*[a-z0-9])?)(.{5,320}$)";

/// The outcome of matching `text` against `pattern` with `fancy_regex`:
/// `Some(b)` when the pattern compiles and the search finishes, `b` telling
/// whether it found a match; `None` when compiling or searching fails.
pub uninterp spec fn regex_match_outcome(pattern: Seq<char>, text: Seq<char>) -> Option<bool>;

/// Compiles `pattern` with `fancy_regex::Regex::new` (default options) and
/// runs `Regex::is_match` on `text`, mapping a failure of either call to
/// `None`. Trusted: the outcome is `regex_match_outcome(pattern, text)`, a
/// function of the two strings alone. The crate's source shows why: parsing
/// and compiling read only the pattern and fixed default limits, and the
/// search fails only on its fixed backtracking and stack limits
/// (`1_000_000` each), which it counts deterministically. Nothing is claimed
/// of which inputs fail.
#[verifier::external_body]
fn regex_match(pattern: &str, text: &str) -> (r: Option<bool>)
    ensures
        r == regex_match_outcome(pattern@, text@),
{
    match fancy_regex::Regex::new(pattern) {
        Ok(re) => re.is_match(text).ok(),
        Err(_) => None,
    }
}

/// The lower-case mapping of a string, as `str::to_lowercase` defines it.
pub uninterp spec fn lowercase(s: Seq<char>) -> Seq<char>;

/// Calls `str::to_lowercase`. Trusted: the result is `lowercase(s)`, a
/// function of `s` alone.
#[verifier::external_body]
fn to_lowercase(s: &str) -> (r: String)
    ensures
        r@ == lowercase(s@),
{
    s.to_lowercase()
}

/// The data of a registration request.
pub struct RegisterData {
    pub nick: String,
    pub email: String,
    pub password: String,
}

/// The data of a login request.
pub struct LoginData {
    pub email: String,
    pub password: String,
}

impl RegisterData {
    /// The address under which the user is stored: the address in lower case.
    pub fn normalized_email(&self) -> (r: String)
        ensures
            r@ == lowercase(self.email@),
    {
        to_lowercase(self.email.as_str())
    }
}

impl LoginData {
    /// The address under which the user is looked up: the address in lower
    /// case.
    pub fn normalized_email(&self) -> (r: String)
        ensures
            r@ == lowercase(self.email@),
    {
        to_lowercase(self.email.as_str())
    }
}

/// Whether `email` is an acceptable address, or `None` when the pattern
/// engine gives up on it: the outcome of matching `email` against
/// `EMAIL_PATTERN`.
pub fn email_is_valid(email: &str) -> (r: Option<bool>)
    ensures
        r == regex_match_outcome(EMAIL_PATTERN@, email@),
{
    regex_match(EMAIL_PATTERN, email)
}

/// The refusal of a registration or login by a logged-in user.
pub open spec fn is_already_logged_in(r: Refusal) -> bool {
    refusal_view(r) == (Status::Forbidden, Some("already logged in"@))
}

/// Refuses a registration or login request made while logged in.
pub fn already_logged_in(logged_in: bool) -> (r: Option<Refusal>)
    ensures
        r is Some <==> logged_in,
        r matches Some(x) ==> is_already_logged_in(x),
{
    if logged_in {
        Some(Refusal { status: Status::Forbidden, error: Some(crate::common::Error::new(String::from_str("already logged in"))) })
    } else {
        None
    }
}

/// Whether a registration request may go on to create the user.
pub enum Admission {
    Admitted,
    Refused(Refusal),
    /// The e-mail pattern could not be evaluated on the address.
    PatternFailed,
}

/// Checks a registration request: refused 403 while logged in, refused 400
/// when the e-mail address does not match `EMAIL_PATTERN`, admitted
/// otherwise.
pub fn register_check(logged_in: bool, data: &RegisterData) -> (r: Admission)
    ensures
        logged_in ==> (r matches Admission::Refused(x) && is_already_logged_in(x)),
        !logged_in ==> match r {
            Admission::Admitted => regex_match_outcome(EMAIL_PATTERN@, data.email@) == Some(true),
            Admission::Refused(x) => regex_match_outcome(EMAIL_PATTERN@, data.email@) == Some(false)
                && refusal_view(x) == (Status::BadRequest, Some("email is not valid"@)),
            Admission::PatternFailed => regex_match_outcome(EMAIL_PATTERN@, data.email@) is None,
        },
{
    if let Some(refusal) = already_logged_in(logged_in) {
        return Admission::Refused(refusal);
    }
    let outcome = email_is_valid(data.email.as_str());
    proof {
        if outcome is Some {
            assert(outcome == Some(true) || outcome == Some(false));
        }
    }
    email_admission(outcome)
}

/// The admission of a registration by a user who is not logged in, given
/// the outcome of matching the address against `EMAIL_PATTERN`: admitted
/// when it matched, refused 400 when it did not, and `PatternFailed` when
/// the pattern could not be evaluated.
pub fn email_admission(email_valid: Option<bool>) -> (r: Admission)
    ensures
        email_valid == Some(true) ==> r is Admitted,
        email_valid == Some(false) ==> (r matches Admission::Refused(x) && refusal_view(x) == (
            Status::BadRequest,
            Some("email is not valid"@),
        )),
        email_valid is None ==> r is PatternFailed,
{
    match email_valid {
        Some(true) => Admission::Admitted,
        Some(false) => Admission::Refused(
            Refusal { status: Status::BadRequest, error: Some(crate::common::Error::new(String::from_str("email is not valid"))) },
        ),
        None => Admission::PatternFailed,
    }
}

/// The answer to a login attempt once the stored user is found: refused 400
/// when the password does not match.
pub fn login_check(password_matches: bool) -> (r: Result<(), Refusal>)
    ensures
        r is Ok <==> password_matches,
        r matches Err(x) ==> refusal_view(x) == (Status::BadRequest, Some("wrong credentials"@)),
{
    if password_matches {
        Ok(())
    } else {
        Err(Refusal { status: Status::BadRequest, error: Some(crate::common::Error::new(String::from_str("wrong credentials"))) })
    }
}

} // verus!
