//! Authentication state of a request: the bearer token in the
//! `Authorization` header, the user it identifies, the authorities granted to
//! the request, and what the response does with the header.
use vstd::prelude::*;
use vstd::string::{StrSliceExecFns, StringExecFns};

use crate::common::{Error, JsonError, Status};

verus! {

/// The user a token identifies: the user's id and roles.
#[derive(Clone, Debug)]
pub struct UserData {
    pub id: u128,
    pub roles: Vec<String>,
}

impl UserData {
    /// A user without roles.
    pub fn new(id: u128) -> (r: UserData)
        ensures
            r.id == id,
            r.roles@.len() == 0,
    {
        UserData { id, roles: Vec::new() }
    }
}

/// The authentication state that a request carries through the service:
/// the user, if any, and whether a handler changed it.
pub struct AuthDataInner {
    pub changed: bool,
    pub data: Option<UserData>,
}

impl AuthDataInner {
    /// The state of a request whose token identified `data`.
    pub fn new(data: Option<UserData>) -> (r: AuthDataInner)
        ensures
            r.data == data,
            !r.changed,
    {
        AuthDataInner { changed: false, data }
    }

    /// The logged-in user, if any.
    pub fn get_data(&self) -> (r: Option<&UserData>)
        ensures
            r matches Some(d) ==> self.data == Some(*d),
            r is None <==> self.data is None,
    {
        self.data.as_ref()
    }

    /// The user, for a handler to replace (log in or out); the state is
    /// marked changed so that the response carries a new token.
    pub fn get_data_mut(&mut self) -> (r: &mut Option<UserData>)
        ensures
            *r == old(self).data,
            final(self).changed,
            final(self).data == *final(r),
    {
        self.changed = true;
        &mut self.data
    }
}

/// The prefix of a bearer `Authorization` header.
pub open spec fn bearer_prefix() -> Seq<char> {
    "Bearer "@
}

/// The token carried by a header value, if it is a bearer header.
pub open spec fn parse_bearer(header: Seq<char>) -> Option<Seq<char>> {
    if header.len() >= bearer_prefix().len() && header.subrange(0, bearer_prefix().len() as int)
        == bearer_prefix() {
        Some(header.subrange(bearer_prefix().len() as int, header.len() as int))
    } else {
        None
    }
}

/// The token of a bearer `Authorization` header value (`"Bearer <token>"`),
/// or `None` for any other value.
pub fn bearer_token(header: &str) -> (r: Option<&str>)
    ensures
        r is Some <==> parse_bearer(header@) is Some,
        r matches Some(t) ==> parse_bearer(header@) == Some(t@),
{
    let prefix = "Bearer ";
    proof {
        reveal_strlit("Bearer ");
    }
    let len = header.unicode_len();
    if len < 7 {
        return None;
    }
    let mut i: usize = 0;
    while i < 7
        invariant
            i <= 7,
            len == header@.len(),
            len >= 7,
            prefix@ == bearer_prefix(),
            prefix@.len() == 7,
            forall|j: int| 0 <= j < i ==> header@[j] == prefix@[j],
        decreases 7 - i,
    {
        if header.get_char(i) != prefix.get_char(i) {
            proof {
                assert(header@.subrange(0, 7)[i as int] != bearer_prefix()[i as int]);
            }
            return None;
        }
        i = i + 1;
    }
    proof {
        assert(header@.subrange(0, 7) =~= bearer_prefix());
    }
    Some(header.substring_char(7, len))
}

/// The `Authorization` header value that carries `token`.
pub fn bearer_header(token: &str) -> (r: String)
    ensures
        r@ == bearer_prefix() + token@,
{
    let mut header = String::from_str("Bearer ");
    header.append(token);
    header
}

/// A bearer header gives back the token it was made from.
pub proof fn law_bearer_roundtrip(token: Seq<char>)
    ensures
        parse_bearer(bearer_prefix() + token) == Some(token),
{
    reveal_strlit("Bearer ");
    let h = bearer_prefix() + token;
    assert(h.subrange(0, 7) =~= bearer_prefix());
    assert(h.subrange(7, h.len() as int) =~= token);
}

/// The authority granted for a role.
pub open spec fn role_authority(role: Seq<char>) -> Seq<char> {
    "role::"@ + role
}

/// The authorities of a request: one per role of the logged-in user and
/// `state::LoggedIn`, or only `state::LoggedOut` without a user.
pub open spec fn authorities_spec(data: Option<UserData>) -> Seq<Seq<char>> {
    match data {
        Some(d) => d.roles@.map_values(|r: String| role_authority(r@)).push("state::LoggedIn"@),
        None => seq!["state::LoggedOut"@],
    }
}

/// For a logged-in user the authorities are `"role::" + r` for each role
/// `r`, in order, then `state::LoggedIn`; without a user they are
/// `state::LoggedOut` alone.
pub proof fn law_authorities_of_roles(data: Option<UserData>)
    ensures
        data matches Some(d) ==> {
            &&& authorities_spec(data).len() == d.roles@.len() + 1
            &&& forall|i: int| 0 <= i < d.roles@.len() ==> #[trigger] authorities_spec(data)[i] == "role::"@ + d.roles@[i]@
            &&& authorities_spec(data)[d.roles@.len() as int] == "state::LoggedIn"@
        },
        data is None ==> authorities_spec(data) == seq!["state::LoggedOut"@],
{
}

/// The authorities granted to a request with the given user.
pub fn extract(data: Option<&UserData>) -> (r: Vec<String>)
    ensures
        r@.map_values(|s: String| s@) == authorities_spec(
            match data {
                Some(d) => Some(*d),
                None => None,
            },
        ),
        data matches Some(d) ==> {
            &&& r@.len() == d.roles@.len() + 1
            &&& forall|i: int| 0 <= i < d.roles@.len() ==> #[trigger] r@[i]@ == "role::"@ + d.roles@[i]@
            &&& r@[d.roles@.len() as int]@ == "state::LoggedIn"@
        },
        data is None ==> r@.len() == 1 && r@[0]@ == "state::LoggedOut"@,
{
    let mut set: Vec<String> = Vec::new();
    match data {
        Some(d) => {
            let mut i: usize = 0;
            while i < d.roles.len()
                invariant
                    i <= d.roles@.len(),
                    set@.len() == i,
                    set@.map_values(|s: String| s@) == d.roles@.take(i as int).map_values(
                        |r: String| role_authority(r@),
                    ),
                decreases d.roles@.len() - i,
            {
                let mut a = String::from_str("role::");
                a.append(d.roles[i].as_str());
                let ghost prev = set@;
                let ghost av = a@;
                set.push(a);
                proof {
                    assert(av == role_authority(d.roles@[i as int]@));
                    assert(set@ == prev.push(set@[i as int]));
                    assert(set@.map_values(|s: String| s@) =~= prev.map_values(|s: String| s@).push(av));
                    assert(d.roles@.take(i + 1) =~= d.roles@.take(i as int).push(d.roles@[i as int]));
                    assert(set@.map_values(|s: String| s@) =~= d.roles@.take(i + 1).map_values(
                        |r: String| role_authority(r@),
                    ));
                }
                i = i + 1;
            }
            set.push(String::from_str("state::LoggedIn"));
            proof {
                assert(d.roles@.take(d.roles@.len() as int) =~= d.roles@);
                assert(set@.map_values(|s: String| s@) =~= authorities_spec(Some(*d)));
            }
        },
        None => {
            set.push(String::from_str("state::LoggedOut"));
            proof {
                assert(set@.map_values(|s: String| s@) =~= authorities_spec(None));
            }
        },
    }
    proof {
        let ghost owned = match data {
            Some(d) => Some(*d),
            None => None,
        };
        law_authorities_of_roles(owned);
        let mapped = set@.map_values(|s: String| s@);
        assert forall|i: int| 0 <= i < set@.len() implies #[trigger] set@[i]@ == mapped[i] by {}
    }
    set
}

/// Whether `authority` is among `authorities`.
pub fn has_authority(authorities: &Vec<String>, authority: &str) -> (r: bool)
    ensures
        r <==> exists|i: int| 0 <= i < authorities@.len() && #[trigger] authorities@[i]@ == authority@,
{
    let target = String::from_str(authority);
    let mut i: usize = 0;
    while i < authorities.len()
        invariant
            i <= authorities@.len(),
            target@ == authority@,
            forall|j: int| 0 <= j < i ==> #[trigger] authorities@[j]@ != authority@,
        decreases authorities@.len() - i,
    {
        if authorities[i] == target {
            return true;
        }
        i = i + 1;
    }
    false
}

/// The message refusing a request that lacks `authority`.
pub open spec fn missing_authority_message(authority: Seq<char>) -> Seq<char> {
    "user is missing \""@ + authority + "\" authority"@
}

/// Refuses, with 403 Forbidden, a request whose authorities lack
/// `authority`.
pub fn check_user_authority(authorities: &Vec<String>, authority: &str) -> (r: Result<(), JsonError>)
    ensures
        r is Ok <==> exists|i: int| 0 <= i < authorities@.len() && #[trigger] authorities@[i]@ == authority@,
        r matches Err(e) ==> e.status_code == Status::Forbidden && e.error.error@
            == missing_authority_message(authority@),
{
    if has_authority(authorities, authority) {
        Ok(())
    } else {
        let mut message = String::from_str("user is missing \"");
        message.append(authority);
        message.append("\" authority");
        Err(JsonError::new(Error::new(message), Status::Forbidden))
    }
}

/// A request made by a logged-in user.
pub struct LoggedInUser {
    pub id: u128,
}

/// A request made by a logged-in user, with the request's authorities.
pub struct LoggedInUserWithAuthorities {
    pub id: u128,
    pub authorities: Vec<String>,
}

/// The refusal of a request that needs a logged-in user.
pub open spec fn not_logged_in(e: JsonError) -> bool {
    e.status_code == Status::Unauthorized && e.error.error@ == "not logged in"@
}

impl LoggedInUser {
    /// The logged-in user of a request, or 401 Unauthorized without one.
    pub fn from_auth(auth: &AuthDataInner) -> (r: Result<LoggedInUser, JsonError>)
        ensures
            r is Ok <==> auth.data is Some,
            r matches Ok(u) ==> u.id == auth.data->Some_0.id,
            r matches Err(e) ==> not_logged_in(e),
    {
        match &auth.data {
            Some(user_data) => Ok(LoggedInUser { id: user_data.id }),
            None => Err(JsonError::new(Error::new(String::from_str("not logged in")), Status::Unauthorized)),
        }
    }
}

impl LoggedInUserWithAuthorities {
    /// The logged-in user of a request together with the authorities granted
    /// to it, or 401 Unauthorized without a user.
    pub fn from_auth(auth: &AuthDataInner, authorities: Vec<String>) -> (r: Result<
        LoggedInUserWithAuthorities,
        JsonError,
    >)
        ensures
            r is Ok <==> auth.data is Some,
            r matches Ok(u) ==> u.id == auth.data->Some_0.id && u.authorities@ == authorities@,
            r matches Err(e) ==> not_logged_in(e),
    {
        match &auth.data {
            Some(user_data) => Ok(LoggedInUserWithAuthorities { id: user_data.id, authorities }),
            None => Err(JsonError::new(Error::new(String::from_str("not logged in")), Status::Unauthorized)),
        }
    }
}

/// The validity times of a token issued at `now` (seconds since the epoch).
#[derive(Clone, Copy, Debug, PartialEq, Eq)]
pub struct TokenTimes {
    pub exp: u64,
    pub iat: u64,
    pub nbf: u64,
}

/// A token issued at `now` is valid from `now` and expires `token_ttl`
/// seconds later.
pub fn token_times(now: u64, token_ttl: u64) -> (r: TokenTimes)
    requires
        now + token_ttl <= u64::MAX,
    ensures
        r.iat == now,
        r.nbf == now,
        r.exp == now + token_ttl,
{
    TokenTimes { exp: now + token_ttl, iat: now, nbf: now }
}

/// What a response does with the `Authorization` header.
#[derive(Clone, Copy, Debug, PartialEq, Eq)]
pub enum HeaderAction {
    /// Send a fresh token for the (new) user.
    IssueToken,
    /// Send no token: the user logged out.
    Remove,
    /// Send back the header the request came with.
    Echo,
    /// Leave the response's headers alone.
    Keep,
}

/// The header a response carries: a fresh token when a handler changed the
/// user and there is one, none when it changed and there is none, and
/// otherwise the request's own header if it had one.
pub fn response_header_action(changed: bool, logged_in: bool, had_header: bool) -> (r: HeaderAction)
    ensures
        changed && logged_in ==> r == HeaderAction::IssueToken,
        changed && !logged_in ==> r == HeaderAction::Remove,
        !changed && had_header ==> r == HeaderAction::Echo,
        !changed && !had_header ==> r == HeaderAction::Keep,
{
    if changed {
        if logged_in {
            HeaderAction::IssueToken
        } else {
            HeaderAction::Remove
        }
    } else if had_header {
        HeaderAction::Echo
    } else {
        HeaderAction::Keep
    }
}

} // verus!
