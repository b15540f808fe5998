//! Bracket generation: which bracket trees a tournament gets when its
//! applications close, and which brackets each tree holds.
//!
//! An elimination tree for `n` teams has `depth` full layers `0..depth`
//! (layer `l` holds `2^l` brackets, layer 0 is the final) and, where `n` is
//! not a power of two, `stickout` extra brackets on layer `depth` for the
//! teams that must play an additional round. Brackets are emitted first for
//! the stick-out layer, left to right, then layer by layer towards the final,
//! each layer right to left. Seeded teams are dealt two per bracket in that
//! order (second slot first); a bracket that receives a single team records
//! that team as its winner, unless it sits at the meeting point where a
//! stick-out winner will join it.
use vstd::prelude::*;

use crate::common::TournamentType;
use crate::math::{
    floor_log2, floor_log2_u64, lemma_floor_log2_bounds, lemma_two_pow_pos, pow2_u64, two_pow,
};

verus! {

/// One bracket to be inserted: its place in the tree, its teams, and its
/// winner (`Some(true)` when `team1` won, `Some(false)` when `team2` won).
#[derive(Clone, Copy, Debug, PartialEq, Eq)]
pub struct PlannedBracket {
    pub layer: u32,
    pub position: usize,
    pub team1: Option<u128>,
    pub team2: Option<u128>,
    pub winner: Option<bool>,
}

/// One bracket tree to be inserted: its position among the tournament's
/// trees (`-1` for a free-for-all), the number of teams it is laid out for,
/// and whether the tournament's teams are seeded into it.
#[derive(Clone, Copy, Debug, PartialEq, Eq)]
pub struct TreeSpec {
    pub position: i64,
    pub no_teams: usize,
    pub seeded: bool,
}

/// Number of full layers of a tree for `n` teams.
pub open spec fn tree_depth(n: nat) -> nat {
    if n == 1 {
        1
    } else {
        floor_log2(n)
    }
}

/// Number of brackets on the extra layer below the full ones.
pub open spec fn tree_stickout(n: nat) -> nat {
    if n >= two_pow(tree_depth(n)) {
        (n - two_pow(tree_depth(n))) as nat
    } else {
        0
    }
}

/// Number of brackets of a tree for `n` teams.
pub open spec fn tree_bracket_count(n: nat) -> nat {
    if n == 0 {
        0
    } else {
        (tree_stickout(n) + two_pow(tree_depth(n)) - 1) as nat
    }
}

/// Layer of the `i`-th emitted bracket.
pub open spec fn slot_layer(n: nat, i: nat) -> nat {
    if i < tree_stickout(n) {
        tree_depth(n)
    } else {
        floor_log2((tree_bracket_count(n) - i) as nat)
    }
}

/// Position within its layer of the `i`-th emitted bracket.
pub open spec fn slot_position(n: nat, i: nat) -> nat {
    if i < tree_stickout(n) {
        i
    } else {
        let k = (tree_bracket_count(n) - i) as nat;
        (k - two_pow(floor_log2(k))) as nat
    }
}

/// The `k`-th seeded team, if there is one.
pub open spec fn seed_at(teams: Seq<u128>, k: nat) -> Option<u128> {
    if k < teams.len() {
        Some(teams[k as int])
    } else {
        None
    }
}

/// The bracket position where the winner of the stick-out layer meets a
/// team that had a bye.
pub open spec fn is_meet_point(n: nat, position: nat) -> bool {
    tree_stickout(n) > 0 && position + 1 == (tree_stickout(n) + 1) / 2
}

/// The winner recorded for a freshly generated bracket.
pub open spec fn bye_winner(team1: Option<u128>, team2: Option<u128>, at_meet_point: bool) -> Option<bool> {
    match (team1, team2) {
        (Some(_), Some(_)) => None,
        (Some(_), None) => if at_meet_point {
            None
        } else {
            Some(true)
        },
        (None, Some(_)) => if at_meet_point {
            None
        } else {
            Some(false)
        },
        (None, None) => None,
    }
}

/// The `i`-th bracket of the tree for `n` teams seeded with `teams`.
pub open spec fn planned_slot(teams: Seq<u128>, n: nat, i: nat) -> PlannedBracket {
    let team1 = seed_at(teams, 2 * i + 1);
    let team2 = seed_at(teams, 2 * i);
    PlannedBracket {
        layer: slot_layer(n, i) as u32,
        position: slot_position(n, i) as usize,
        team1,
        team2,
        winner: bye_winner(team1, team2, is_meet_point(n, slot_position(n, i))),
    }
}

/// The shape of a tree: its depth, its stick-out count and its bracket count.
fn tree_shape(n: usize) -> (r: (u32, usize, usize))
    requires
        n >= 1,
    ensures
        r.0 == tree_depth(n as nat),
        r.1 == tree_stickout(n as nat),
        r.2 == tree_bracket_count(n as nat),
        r.2 <= n,
        r.0 < 64,
        two_pow(r.0 as nat) <= n || n == 1,
{
    if n == 1 {
        assert(two_pow(1) == 2) by {
            reveal_with_fuel(two_pow, 2);
        }
        (1, 0, 1)
    } else {
        let depth = floor_log2_u64(n as u64);
        proof {
            lemma_floor_log2_bounds(n as nat);
        }
        let full = pow2_u64(depth) as usize;
        let stickout = n - full;
        (depth, stickout, stickout + full - 1)
    }
}

/// The `i`-th bracket of a tree for `n` teams seeded with `teams`.
fn plan_slot(teams: &[u128], n: usize, depth: u32, stickout: usize, count: usize, i: usize) -> (r: PlannedBracket)
    requires
        n >= 1,
        depth == tree_depth(n as nat),
        stickout == tree_stickout(n as nat),
        count == tree_bracket_count(n as nat),
        depth < 64,
        i < count,
    ensures
        r == planned_slot(teams@, n as nat, i as nat),
{
    let (layer, position) = if i < stickout {
        (depth, i)
    } else {
        let k = count - i;
        let layer = floor_log2_u64(k as u64);
        proof {
            lemma_floor_log2_bounds(k as nat);
        }
        let full = pow2_u64(layer) as usize;
        (layer, k - full)
    };
    let len = teams.len();
    let team2 = if (i as u128) * 2 < len as u128 {
        Some(teams[2 * i])
    } else {
        None
    };
    let team1 = if (i as u128) * 2 + 1 < len as u128 {
        Some(teams[2 * i + 1])
    } else {
        None
    };
    proof {
        lemma_two_pow_pos(depth as nat);
    }
    let at_meet_point = stickout > 0 && position + 1 == (stickout + 1) / 2;
    let winner = match (team1, team2) {
        (Some(_), Some(_)) => None,
        (Some(_), None) => if at_meet_point {
            None
        } else {
            Some(true)
        },
        (None, Some(_)) => if at_meet_point {
            None
        } else {
            Some(false)
        },
        (None, None) => None,
    };
    PlannedBracket { layer, position, team1, team2, winner }
}

/// The brackets of one elimination tree laid out for `no_teams` teams, with
/// `teams` dealt into it in order (an empty `teams` leaves it unseeded). A
/// tree for no team has no bracket.
pub fn tree_bracket_plan(teams: &[u128], no_teams: usize) -> (r: Vec<PlannedBracket>)
    ensures
        r@.len() == tree_bracket_count(no_teams as nat),
        forall|i: int|
            0 <= i < r@.len() ==> #[trigger] r@[i] == planned_slot(teams@, no_teams as nat, i as nat),
{
    let mut out: Vec<PlannedBracket> = Vec::new();
    if no_teams == 0 {
        return out;
    }
    let (depth, stickout, count) = tree_shape(no_teams);
    let mut i: usize = 0;
    while i < count
        invariant
            no_teams >= 1,
            depth == tree_depth(no_teams as nat),
            stickout == tree_stickout(no_teams as nat),
            count == tree_bracket_count(no_teams as nat),
            depth < 64,
            i <= count,
            out@.len() == i,
            forall|j: int|
                0 <= j < i ==> #[trigger] out@[j] == planned_slot(teams@, no_teams as nat, j as nat),
        decreases count - i,
    {
        let b = plan_slot(teams, no_teams, depth, stickout, count, i);
        out.push(b);
        i = i + 1;
    }
    out
}

/// Every pairing of a team with a team listed after it, in order: the first
/// team against each later one, then the second against each later one, and
/// so on.
pub open spec fn round_robin(teams: Seq<u128>) -> Seq<(u128, u128)>
    decreases teams.len(),
{
    if teams.len() == 0 {
        Seq::empty()
    } else {
        teams.drop_first().map_values(|t: u128| (teams[0], t)) + round_robin(teams.drop_first())
    }
}

/// The free-for-all bracket at position `k` pairs the `k`-th pairing.
pub open spec fn ffa_bracket(pairing: (u128, u128), k: nat) -> PlannedBracket {
    PlannedBracket {
        layer: 0,
        position: k as usize,
        team1: Some(pairing.0),
        team2: Some(pairing.1),
        winner: None,
    }
}

/// The brackets of a free-for-all: one bracket on layer 0 for every pair of
/// teams, numbered in the order of `round_robin`.
pub fn ffa_bracket_plan(teams: &[u128]) -> (r: Vec<PlannedBracket>)
    requires
        teams@.len() >= 1,
        teams@.len() * (teams@.len() - 1) <= usize::MAX,
    ensures
        r@.len() == round_robin(teams@).len(),
        forall|k: int|
            0 <= k < r@.len() ==> #[trigger] r@[k] == ffa_bracket(round_robin(teams@)[k], k as nat),
{
    let n = teams.len();
    let mut out: Vec<PlannedBracket> = Vec::new();
    let mut i: usize = 0;
    proof {
        assert(teams@.skip(0) =~= teams@);
    }
    while i < n
        invariant
            n == teams@.len(),
            i <= n,
            out@.len() + round_robin(teams@.skip(i as int)).len() == round_robin(teams@).len(),
            forall|k: int|
                0 <= k < out@.len() ==> #[trigger] out@[k] == ffa_bracket(
                    round_robin(teams@)[k],
                    k as nat,
                ),
            forall|k: int|
                0 <= k < round_robin(teams@.skip(i as int)).len() ==> round_robin(teams@)[out@.len()
                    + k] == #[trigger] round_robin(teams@.skip(i as int))[k],
        decreases n - i,
    {
        let ghost rest = teams@.skip(i as int);
        let ghost row = rest.drop_first().map_values(|t: u128| (rest[0], t));
        proof {
            assert(rest.drop_first() =~= teams@.skip(i + 1));
            assert(round_robin(rest) == row + round_robin(teams@.skip(i + 1)));
        }
        let ghost base = out@.len();
        let mut j: usize = i + 1;
        while j < n
            invariant
                n == teams@.len(),
                i < n,
                i + 1 <= j <= n,
                rest == teams@.skip(i as int),
                row == rest.drop_first().map_values(|t: u128| (rest[0], t)),
                round_robin(rest) == row + round_robin(teams@.skip(i + 1)),
                out@.len() == base + (j - i - 1),
                base + round_robin(rest).len() == round_robin(teams@).len(),
                forall|k: int|
                    0 <= k < out@.len() ==> #[trigger] out@[k] == ffa_bracket(
                        round_robin(teams@)[k],
                        k as nat,
                    ),
                forall|k: int|
                    0 <= k < round_robin(rest).len() ==> round_robin(teams@)[base + k]
                        == #[trigger] round_robin(rest)[k],
            decreases n - j,
        {
            let k = out.len();
            proof {
                let idx = (j - i - 1) as int;
                assert(round_robin(rest)[idx] == row[idx]);
                assert(round_robin(teams@)[base + idx] == round_robin(rest)[idx]);
                assert(row[idx] == (teams@[i as int], teams@[j as int]));
            }
            out.push(PlannedBracket {
                layer: 0,
                position: k,
                team1: Some(teams[i]),
                team2: Some(teams[j]),
                winner: None,
            });
            j = j + 1;
        }
        proof {
            assert forall|k: int|
                0 <= k < round_robin(teams@.skip(i + 1)).len() implies round_robin(teams@)[out@.len()
                + k] == #[trigger] round_robin(teams@.skip(i + 1))[k] by {
                assert(round_robin(rest)[row.len() + k] == round_robin(teams@.skip(i + 1))[k]);
            }
        }
        i = i + 1;
    }
    proof {
        assert(teams@.skip(n as int) =~= Seq::<u128>::empty());
    }
    out
}

/// The smaller of two numbers.
pub open spec fn min_nat(a: nat, b: nat) -> nat {
    if a <= b {
        a
    } else {
        b
    }
}

/// The seeded tree at position 0, present when there is a team.
pub open spec fn main_tree(n: nat) -> Seq<TreeSpec> {
    if n == 0 {
        Seq::empty()
    } else {
        seq![TreeSpec { position: 0i64, no_teams: n as usize, seeded: true }]
    }
}

/// Number of trees after the main one when each later tree decides one
/// final place: trees `1..min(places, n - 1)`.
pub open spec fn extra_trees_one(n: nat, places: nat) -> nat {
    let m = min_nat(places, (n - 1) as nat);
    if m > 1 {
        (m - 1) as nat
    } else {
        0
    }
}

/// Number of trees after the main one when each later tree decides two
/// final places: trees `1..min(ceil(places / 2), ceil(n / 2))`.
pub open spec fn extra_trees_two(n: nat, places: nat) -> nat {
    let m = min_nat((places + 1) / 2, (n + 1) / 2);
    if m > 1 {
        (m - 1) as nat
    } else {
        0
    }
}

/// The trees a tournament of type `tt` gets for `n` valid teams when
/// `places` final places are to be decided. Later trees are unseeded: they
/// are filled by the losers that the previous tree sends on.
pub open spec fn planned_trees(tt: TournamentType, n: nat, places: nat) -> Seq<TreeSpec> {
    match tt {
        TournamentType::FFA => seq![TreeSpec { position: -1i64, no_teams: n as usize, seeded: true }],
        TournamentType::OneBracketOneFinalPositions => main_tree(n) + Seq::new(
            extra_trees_one(n, places),
            |p: int| TreeSpec { position: (p + 1) as i64, no_teams: (n - (p + 1)) as usize, seeded: false },
        ),
        TournamentType::OneBracketTwoFinalPositions => main_tree(n) + Seq::new(
            extra_trees_two(n, places),
            |p: int|
                TreeSpec { position: (p + 1) as i64, no_teams: (n - 2 * (p + 1)) as usize, seeded: false },
        ),
    }
}

/// The bracket trees to generate for a tournament of type `tournament_type`
/// with `no_teams` valid teams and `number_of_final_places` places to
/// decide. A one-final-place tournament needs a team, and a free-for-all
/// needs a team and a pairing count that fits in memory.
pub fn plan_trees(tournament_type: TournamentType, no_teams: usize, number_of_final_places: u32) -> (r: Vec<TreeSpec>)
    requires
        tournament_type == TournamentType::OneBracketOneFinalPositions ==> no_teams >= 1,
        tournament_type == TournamentType::FFA ==> no_teams >= 1 && no_teams * (no_teams - 1) <= usize::MAX,
    ensures
        r@ == planned_trees(tournament_type, no_teams as nat, number_of_final_places as nat),
{
    let mut out: Vec<TreeSpec> = Vec::new();
    match tournament_type {
        TournamentType::FFA => {
            out.push(TreeSpec { position: -1, no_teams, seeded: true });
            proof {
                assert(out@ =~= planned_trees(tournament_type, no_teams as nat, number_of_final_places as nat));
            }
        },
        TournamentType::OneBracketOneFinalPositions => {
            out.push(TreeSpec { position: 0, no_teams, seeded: true });
            let limit = if (number_of_final_places as usize) < no_teams - 1 {
                number_of_final_places as usize
            } else {
                no_teams - 1
            };
            let ghost extra = Seq::new(
                extra_trees_one(no_teams as nat, number_of_final_places as nat),
                |p: int| TreeSpec { position: (p + 1) as i64, no_teams: (no_teams - (p + 1)) as usize, seeded: false },
            );
            let mut position: usize = 1;
            while position < limit
                invariant
                    no_teams >= 1,
                    limit <= no_teams - 1,
                    limit == min_nat(number_of_final_places as nat, (no_teams - 1) as nat),
                    1 <= position,
                    position <= limit || position == 1,
                    out@.len() == position,
                    out@[0] == (TreeSpec { position: 0, no_teams, seeded: true }),
                    extra.len() == extra_trees_one(no_teams as nat, number_of_final_places as nat),
                    forall|p: int| #![trigger extra[p]] 0 <= p < extra.len() ==> extra[p] == (TreeSpec { position: (p + 1) as i64, no_teams: (no_teams - (p + 1)) as usize, seeded: false }),
                    forall|p: int| 1 <= p < position ==> #[trigger] out@[p] == extra[p - 1],
                decreases limit - position,
            {
                out.push(TreeSpec { position: position as i64, no_teams: no_teams - position, seeded: false });
                position = position + 1;
            }
            proof {
                assert(out@.len() == 1 + extra.len());
                assert forall|p: int| 0 <= p < out@.len() implies #[trigger] out@[p] == (main_tree(no_teams as nat) + extra)[p] by {
                    if p >= 1 {
                        assert(out@[p] == extra[p - 1]);
                    }
                }
                assert(out@ =~= main_tree(no_teams as nat) + extra);
            }
        },
        TournamentType::OneBracketTwoFinalPositions => {
            if no_teams > 0 {
                out.push(TreeSpec { position: 0, no_teams, seeded: true });
            }
            let num_trees = (number_of_final_places as usize) / 2 + (number_of_final_places as usize) % 2;
            let max_num_trees = no_teams / 2 + no_teams % 2;
            let limit = if num_trees < max_num_trees {
                num_trees
            } else {
                max_num_trees
            };
            let ghost extra = Seq::new(
                extra_trees_two(no_teams as nat, number_of_final_places as nat),
                |p: int| TreeSpec { position: (p + 1) as i64, no_teams: (no_teams - 2 * (p + 1)) as usize, seeded: false },
            );
            let ghost head = main_tree(no_teams as nat);
            let mut position: usize = 1;
            while position < limit
                invariant
                    limit <= (no_teams as nat + 1) / 2,
                    limit == min_nat((number_of_final_places as nat + 1) / 2, (no_teams as nat + 1) / 2),
                    1 <= position,
                    position <= limit || position == 1,
                    limit >= 2 ==> no_teams > 0,
                    head == main_tree(no_teams as nat),
                    out@.len() == head.len() + position - 1,
                    forall|p: int| 0 <= p < head.len() ==> #[trigger] out@[p] == head[p],
                    extra.len() == extra_trees_two(no_teams as nat, number_of_final_places as nat),
                    forall|p: int| #![trigger extra[p]] 0 <= p < extra.len() ==> extra[p] == (TreeSpec { position: (p + 1) as i64, no_teams: (no_teams - 2 * (p + 1)) as usize, seeded: false }),
                    forall|p: int| 1 <= p < position ==> #[trigger] out@[head.len() + p - 1] == extra[p - 1],
                decreases limit - position,
            {
                out.push(TreeSpec { position: position as i64, no_teams: no_teams - 2 * position, seeded: false });
                position = position + 1;
            }
            proof {
                assert(out@.len() == head.len() + extra.len());
                assert forall|p: int| 0 <= p < out@.len() implies #[trigger] out@[p] == (head + extra)[p] by {
                    if p >= head.len() {
                        assert(out@[head.len() + (p - head.len() + 1) - 1] == extra[p - head.len()]);
                    }
                }
                assert(out@ =~= head + extra);
            }
        },
    }
    out
}

/// One tree to insert together with its brackets.
pub struct PlannedTree {
    pub spec: TreeSpec,
    pub brackets: Vec<PlannedBracket>,
}

/// The brackets of tree `t` of a tournament of type `tt` whose valid teams
/// are `teams`: the pairings of a free-for-all, or the elimination layout,
/// seeded with the teams when the tree is seeded.
pub open spec fn planned_tree_brackets(tt: TournamentType, teams: Seq<u128>, t: TreeSpec, k: int) -> PlannedBracket {
    if tt == TournamentType::FFA {
        ffa_bracket(round_robin(teams)[k], k as nat)
    } else if t.seeded {
        planned_slot(teams, t.no_teams as nat, k as nat)
    } else {
        planned_slot(Seq::empty(), t.no_teams as nat, k as nat)
    }
}

/// Number of brackets of tree `t`.
pub open spec fn planned_tree_size(tt: TournamentType, teams: Seq<u128>, t: TreeSpec) -> nat {
    if tt == TournamentType::FFA {
        round_robin(teams).len()
    } else {
        tree_bracket_count(t.no_teams as nat)
    }
}

/// Everything a tournament of type `tournament_type` gets when its
/// applications close with `teams` as its valid teams and
/// `number_of_final_places` places to decide: its trees, in order, each with
/// its brackets.
pub fn bracket_generation_plan(tournament_type: TournamentType, teams: &[u128], number_of_final_places: u32) -> (r: Vec<PlannedTree>)
    requires
        tournament_type == TournamentType::OneBracketOneFinalPositions ==> teams@.len() >= 1,
        tournament_type == TournamentType::FFA ==> teams@.len() >= 1 && teams@.len() * (teams@.len() - 1) <= usize::MAX,
    ensures
        r@.len() == planned_trees(tournament_type, teams@.len(), number_of_final_places as nat).len(),
        forall|q: int|
            #![trigger r@[q]]
            0 <= q < r@.len() ==> {
                let t = planned_trees(tournament_type, teams@.len(), number_of_final_places as nat)[q];
                &&& r@[q].spec == t
                &&& r@[q].brackets@.len() == planned_tree_size(tournament_type, teams@, t)
                &&& forall|k: int|
                    0 <= k < r@[q].brackets@.len() ==> #[trigger] r@[q].brackets@[k] == planned_tree_brackets(
                        tournament_type,
                        teams@,
                        t,
                        k,
                    )
            },
        tournament_type != TournamentType::FFA ==> forall|q: int, k: int|
            1 <= q < r@.len() && 0 <= k < r@[q].brackets@.len() ==> {
                &&& !r@[q].spec.seeded
                &&& (#[trigger] r@[q].brackets@[k]).team1 is None
                &&& r@[q].brackets@[k].team2 is None
                &&& r@[q].brackets@[k].winner is None
            },
{
    let specs = plan_trees(tournament_type, teams.len(), number_of_final_places);
    let ghost trees = planned_trees(tournament_type, teams@.len(), number_of_final_places as nat);
    let mut out: Vec<PlannedTree> = Vec::new();
    let mut q: usize = 0;
    while q < specs.len()
        invariant
            specs@ == trees,
            trees == planned_trees(tournament_type, teams@.len(), number_of_final_places as nat),
            tournament_type == TournamentType::FFA ==> teams@.len() >= 1 && teams@.len() * (teams@.len() - 1) <= usize::MAX,
            q <= specs@.len(),
            out@.len() == q,
            forall|p: int|
                #![trigger out@[p]]
                0 <= p < q ==> {
                    let t = trees[p];
                    &&& out@[p].spec == t
                    &&& out@[p].brackets@.len() == planned_tree_size(tournament_type, teams@, t)
                    &&& forall|k: int|
                        0 <= k < out@[p].brackets@.len() ==> #[trigger] out@[p].brackets@[k]
                            == planned_tree_brackets(tournament_type, teams@, t, k)
                },
        decreases specs@.len() - q,
    {
        let t = specs[q];
        let brackets = if tournament_type == TournamentType::FFA {
            ffa_bracket_plan(teams)
        } else if t.seeded {
            tree_bracket_plan(teams, t.no_teams)
        } else {
            let none: Vec<u128> = Vec::new();
            let b = tree_bracket_plan(none.as_slice(), t.no_teams);
            proof {
                assert(none@ =~= Seq::<u128>::empty());
            }
            b
        };
        out.push(PlannedTree { spec: t, brackets });
        q = q + 1;
    }
    proof {
        if tournament_type != TournamentType::FFA {
            assert forall|q: int, k: int|
                1 <= q < out@.len() && 0 <= k < out@[q].brackets@.len() implies {
                &&& !out@[q].spec.seeded
                &&& (#[trigger] out@[q].brackets@[k]).team1 is None
                &&& out@[q].brackets@[k].team2 is None
                &&& out@[q].brackets@[k].winner is None
            } by {
                crate::laws::law_later_trees_start_empty(
                    tournament_type,
                    teams@,
                    number_of_final_places as nat,
                    q,
                    k,
                );
            }
        }
    }
    out
}

} // verus!
