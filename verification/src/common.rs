//! Types shared by the whole service: the error body that every refused
//! request carries, the HTTP statuses the service answers with, and the kinds
//! of tournament.
use vstd::prelude::*;

verus! {

/// The JSON body of a refused request: `{"error": "..."}`.
#[derive(Debug)]
pub struct Error {
    pub error: String,
}

impl Error {
    /// An error body carrying `error` as its message.
    pub fn new(error: String) -> (r: Error)
        ensures
            r.error@ == error@,
    {
        Error { error }
    }
}

/// The HTTP statuses that the service answers with.
#[derive(Clone, Copy, Debug, PartialEq, Eq)]
pub enum Status {
    Success,
    BadRequest,
    Unauthorized,
    Forbidden,
    InternalServerError,
}

/// The numeric code of a status.
pub open spec fn status_code_spec(s: Status) -> u16 {
    match s {
        Status::Success => 200,
        Status::BadRequest => 400,
        Status::Unauthorized => 401,
        Status::Forbidden => 403,
        Status::InternalServerError => 500,
    }
}

impl Status {
    /// The numeric HTTP code of this status.
    pub fn code(&self) -> (r: u16)
        ensures
            r == status_code_spec(*self),
    {
        match self {
            Status::Success => 200,
            Status::BadRequest => 400,
            Status::Unauthorized => 401,
            Status::Forbidden => 403,
            Status::InternalServerError => 500,
        }
    }
}

/// An error body together with the status it is sent with.
#[derive(Debug)]
pub struct JsonError {
    pub error: Error,
    pub status_code: Status,
}

impl JsonError {
    /// Pairs an error body with the status it is answered with.
    pub fn new(error: Error, status_code: Status) -> (r: JsonError)
        ensures
            r.error.error@ == error.error@,
            r.status_code == status_code,
    {
        JsonError { error, status_code }
    }
}

/// The kinds of tournament: a free-for-all where every team meets every
/// other team once, or an elimination bracket whose later trees decide the
/// final places, one place per tree or two.
#[derive(Clone, Copy, Debug, PartialEq, Eq, Structural, PartialOrd)]
pub enum TournamentType {
    FFA,
    OneBracketTwoFinalPositions,
    OneBracketOneFinalPositions,
}

/// The ids of the entries whose flag is `flag`, in their order.
pub open spec fn ids_with_flag(entries: Seq<(u128, bool)>, flag: bool) -> Seq<u128>
    decreases entries.len(),
{
    if entries.len() == 0 {
        Seq::empty()
    } else {
        let rest = ids_with_flag(entries.drop_last(), flag);
        if entries.last().1 == flag {
            rest.push(entries.last().0)
        } else {
            rest
        }
    }
}

/// Splits `(id, flag)` entries into the ids flagged `true` and the ids
/// flagged `false`, each in the entries' order: valid and invalid teams of a
/// tournament, or players who play and who sit out.
pub fn split_by_flag(entries: &[(u128, bool)]) -> (r: (Vec<u128>, Vec<u128>))
    ensures
        r.0@ == ids_with_flag(entries@, true),
        r.1@ == ids_with_flag(entries@, false),
{
    let mut flagged: Vec<u128> = Vec::new();
    let mut unflagged: Vec<u128> = Vec::new();
    let mut i: usize = 0;
    while i < entries.len()
        invariant
            i <= entries@.len(),
            flagged@ == ids_with_flag(entries@.take(i as int), true),
            unflagged@ == ids_with_flag(entries@.take(i as int), false),
        decreases entries@.len() - i,
    {
        proof {
            assert(entries@.take(i + 1).drop_last() =~= entries@.take(i as int));
        }
        let (id, flag) = entries[i];
        if flag {
            flagged.push(id);
        } else {
            unflagged.push(id);
        }
        i = i + 1;
    }
    proof {
        assert(entries@.take(entries@.len() as int) =~= entries@);
    }
    (flagged, unflagged)
}

/// Splitting loses no entry: the two sides together are as long as the
/// entries, and each entry's id is on the side of its flag.
pub proof fn law_split_partitions(entries: Seq<(u128, bool)>, k: int)
    requires
        0 <= k < entries.len(),
    ensures
        ids_with_flag(entries, true).len() + ids_with_flag(entries, false).len() == entries.len(),
        ids_with_flag(entries, entries[k].1).contains(entries[k].0),
    decreases entries.len(),
{
    let rest = entries.drop_last();
    if k == entries.len() - 1 {
        assert(ids_with_flag(entries, entries[k].1) == ids_with_flag(rest, entries[k].1).push(entries[k].0));
        assert(ids_with_flag(entries, entries[k].1).last() == entries[k].0);
        if entries.len() > 1 {
            law_split_partitions(rest, 0);
        }
    } else {
        law_split_partitions(rest, k);
        assert(rest[k] == entries[k]);
        let side = ids_with_flag(rest, entries[k].1);
        let j = choose|j: int| 0 <= j < side.len() && side[j] == entries[k].0;
        assert(ids_with_flag(entries, entries[k].1)[j] == entries[k].0);
    }
}

} // verus!
