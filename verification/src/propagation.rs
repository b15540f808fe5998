//! Propagation of a decided bracket: its winner moves one layer up in the
//! same tree, and (for elimination tournaments with final-place trees) its
//! loser drops into the next tree, where the losers of a tree are dealt into
//! the brackets of the next one.
use vstd::prelude::*;

use crate::common::TournamentType;
use crate::math::{
    floor_log2, floor_log2_u64, lemma_floor_log2_bounds, lemma_two_pow_64, lemma_two_pow_monotone,
    lemma_two_pow_pos, pow2_u64, two_pow,
};

verus! {

/// A team to be written into one slot of a bracket: `team1` when
/// `set_team1`, `team2` otherwise.
#[derive(Clone, Copy, Debug, PartialEq, Eq)]
pub struct SlotUpdate {
    pub layer: u32,
    pub position: i64,
    pub team: u128,
    pub set_team1: bool,
}

/// The teams and winner of a bracket whose result is known.
#[derive(Clone, Copy, Debug, PartialEq, Eq)]
pub struct DecidedBracket {
    pub team1: u128,
    pub team2: u128,
    pub winner: bool,
}

/// A bracket takes part in propagation only when both teams and the winner
/// are known.
pub fn decided_bracket(team1: Option<u128>, team2: Option<u128>, winner: Option<bool>) -> (r: Option<DecidedBracket>)
    ensures
        r is Some <==> (team1 is Some && team2 is Some && winner is Some),
        r matches Some(d) ==> (team1 == Some(d.team1) && team2 == Some(d.team2) && winner == Some(d.winner)),
{
    match (team1, team2, winner) {
        (Some(team1), Some(team2), Some(winner)) => Some(DecidedBracket { team1, team2, winner }),
        _ => None,
    }
}

/// The team that won a decided bracket.
pub open spec fn winning_team(b: DecidedBracket) -> u128 {
    if b.winner {
        b.team1
    } else {
        b.team2
    }
}

/// The team that lost a decided bracket.
pub open spec fn losing_team(b: DecidedBracket) -> u128 {
    if b.winner {
        b.team2
    } else {
        b.team1
    }
}

/// Where the winner of the bracket at `(layer, position)` goes in the same
/// tree: the parent bracket one layer up at half the position, into `team1`
/// from an even position and `team2` from an odd one. The final (layer 0)
/// has no parent.
pub open spec fn forward_target(layer: nat, position: int, b: DecidedBracket) -> Option<SlotUpdate> {
    if layer == 0 {
        None
    } else {
        Some(
            SlotUpdate {
                layer: (layer - 1) as u32,
                position: (position / 2) as i64,
                team: winning_team(b),
                set_team1: position % 2 == 0,
            },
        )
    }
}

/// The slot that the winner of a decided bracket moves into.
pub fn forward_update(layer: u8, position: i32, bracket: DecidedBracket) -> (r: Option<SlotUpdate>)
    requires
        layer < 64,
    ensures
        r == forward_target(layer as nat, position as int, bracket),
        r is Some <==> layer > 0,
        r matches Some(u) ==> u.team == (if bracket.winner {
            bracket.team1
        } else {
            bracket.team2
        }) && u.layer + 1 == layer && u.set_team1 == (position % 2 == 0),
{
    if layer == 0 {
        return None;
    }
    let p = position as i64;
    let half: i64 = if p >= 0 {
        p / 2
    } else {
        -((1 - p) / 2)
    };
    let team = if bracket.winner {
        bracket.team1
    } else {
        bracket.team2
    };
    Some(SlotUpdate { layer: (layer - 1) as u32, position: half, team, set_team1: position % 2 == 0 })
}

/// Whether the loser of the bracket at `(layer, position)` moves on to the
/// next tree: in a two-final-places tournament the final of a tree decides
/// both of its places, so its loser stays.
pub open spec fn continues_to_next_tree_spec(tt: TournamentType, layer: nat, position: int) -> bool {
    !(tt == TournamentType::OneBracketTwoFinalPositions && layer == 0 && position == 0)
}

/// Whether the loser of the bracket at `(layer, position)` moves on to the
/// next tree.
pub fn continues_to_next_tree(tt: TournamentType, layer: u8, position: i32) -> (r: bool)
    ensures
        r == continues_to_next_tree_spec(tt, layer as nat, position as int),
{
    !(tt == TournamentType::OneBracketTwoFinalPositions && layer == 0 && position == 0)
}

/// `2^a + 2^(a+1) + ... + 2^(b-1)`, the number of brackets on layers
/// `a..b` of a full tree.
pub open spec fn layers_size(a: nat, b: nat) -> nat
    decreases b - a,
{
    if a >= b {
        0
    } else {
        two_pow(a) + layers_size(a + 1, b)
    }
}

/// The layers `a..b` hold `2^b - 2^a` brackets.
pub proof fn lemma_layers_size(a: nat, b: nat)
    requires
        a <= b,
    ensures
        layers_size(a, b) + two_pow(a) == two_pow(b),
    decreases b - a,
{
    if a < b {
        lemma_layers_size(a + 1, b);
        assert(two_pow(a + 1) == 2 * two_pow(a));
    }
}

/// The number of losers a tree sends to the next one, given its deepest
/// layer `max_layer` and the number of brackets on that layer: one per
/// bracket, less the final's loser in a two-final-places tournament.
pub open spec fn dropout_count_spec(tt: TournamentType, max_layer: nat, no_brackets: nat) -> int {
    let all = 1 + layers_size(1, max_layer) + no_brackets;
    if tt == TournamentType::OneBracketTwoFinalPositions {
        all - 1
    } else {
        all as int
    }
}

/// The rank of the loser of the bracket at `(layer, position)` among the
/// losers of its tree: the deepest layer first, then each layer towards the
/// final.
pub open spec fn dropout_index_spec(layer: nat, position: int, max_layer: nat, no_brackets: nat) -> int {
    if layer == max_layer {
        position
    } else {
        no_brackets + layers_size(layer + 1, max_layer) + position
    }
}

/// Number of full layers of the next tree, laid out for `count` teams.
pub open spec fn next_tree_depth(count: nat) -> nat {
    if count == 1 {
        1
    } else {
        floor_log2(count)
    }
}

/// Number of stick-out brackets of the next tree.
pub open spec fn next_tree_stickout(count: nat) -> nat {
    if count >= two_pow(next_tree_depth(count)) {
        (count - two_pow(next_tree_depth(count))) as nat
    } else {
        0
    }
}

/// The rank counted from the other end, `0` when out of range.
pub open spec fn inverted_index(count: nat, d: int) -> nat {
    if 0 <= d <= count - 1 {
        (count - 1 - d) as nat
    } else {
        0
    }
}

/// Whether the loser of rank `d` lands on the stick-out layer of the next
/// tree.
pub open spec fn lands_on_stickout(count: nat, d: int) -> bool {
    next_tree_stickout(count) * 2 > inverted_index(count, d)
}

/// The inputs on which the loser's slot in the next tree is determined
/// (elsewhere the computation of the original overflows).
pub open spec fn dropout_defined(tt: TournamentType, layer: nat, position: int, max_layer: nat, no_brackets: nat) -> bool {
    let count = dropout_count_spec(tt, max_layer, no_brackets);
    let d = dropout_index_spec(layer, position, max_layer, no_brackets);
    count >= 1 ==> {
        &&& !(layer != max_layer && layer == 255)
        &&& !(layer != max_layer && position < 0 && d >= 0)
        &&& !lands_on_stickout(count as nat, d) ==> 0 <= d < two_pow(next_tree_depth(count as nat))
    }
}

/// Where the loser of the bracket at `(layer, position)` lands in the next
/// tree: the losers, taken in reverse rank, first fill the stick-out layer
/// of the next tree two per bracket, then the layer above.
pub open spec fn dropout_target(
    tt: TournamentType,
    layer: nat,
    position: int,
    max_layer: nat,
    no_brackets: nat,
    b: DecidedBracket,
) -> Option<SlotUpdate> {
    let count = dropout_count_spec(tt, max_layer, no_brackets);
    let d = dropout_index_spec(layer, position, max_layer, no_brackets);
    if count < 1 {
        None
    } else {
        let c = count as nat;
        let depth = next_tree_depth(c);
        let inv = inverted_index(c, d);
        if lands_on_stickout(c, d) {
            Some(SlotUpdate { layer: depth as u32, position: (inv / 2) as i64, team: losing_team(b), set_team1: inv % 2 == 0 })
        } else {
            Some(
                SlotUpdate {
                    layer: (depth - 1) as u32,
                    position: ((two_pow(depth) - 1 - d) / 2) as i64,
                    team: losing_team(b),
                    set_team1: inv % 2 != 0,
                },
            )
        }
    }
}

/// `layers_size(a, b)` computed in machine arithmetic.
fn layers_size_exec(a: u32, b: u32) -> (r: u64)
    requires
        b <= 63,
    ensures
        r == layers_size(a as nat, b as nat),
        a <= b ==> r + two_pow(a as nat) == two_pow(b as nat),
{
    proof {
        if a <= b {
            lemma_layers_size(a as nat, b as nat);
        }
    }
    if a >= b {
        return 0;
    }
    let mut sum: u64 = 0;
    let mut l: u32 = b;
    proof {
        lemma_two_pow_monotone(b as nat, 63);
        lemma_two_pow_64();
        lemma_two_pow_monotone(63, 64);
    }
    while l > a
        invariant
            a < b <= 63,
            a <= l <= b,
            sum == layers_size(l as nat, b as nat),
            sum + two_pow(l as nat) == two_pow(b as nat),
            two_pow(b as nat) < 0x1_0000_0000_0000_0000,
        decreases l - a,
    {
        let lm = l - 1;
        proof {
            lemma_layers_size(lm as nat, b as nat);
            lemma_two_pow_monotone(lm as nat, b as nat);
        }
        let p = pow2_u64(lm) as u64;
        sum = sum + p;
        l = lm;
    }
    sum
}

/// The number of losers a tree with deepest layer `max_layer` holding
/// `no_brackets` brackets sends to the next tree.
pub fn dropout_count(tt: TournamentType, max_layer: u8, no_brackets: u8) -> (r: u64)
    requires
        max_layer <= 63,
    ensures
        r == dropout_count_spec(tt, max_layer as nat, no_brackets as nat),
{
    let s = layers_size_exec(1, max_layer as u32);
    proof {
        lemma_two_pow_64();
        lemma_two_pow_monotone(max_layer as nat, 63);
        lemma_two_pow_monotone(63, 64);
        if 1 > max_layer {
            assert(s == 0);
        }
        assert(s < 0x8000_0000_0000_0000) by {
            if 1 <= max_layer {
                lemma_two_pow_pos(1);
                assert(two_pow(63) == 0x8000_0000_0000_0000) by {
                    assert(two_pow(64) == 2 * two_pow(63));
                }
            }
        }
    }
    let all = 1 + s + no_brackets as u64;
    if tt == TournamentType::OneBracketTwoFinalPositions {
        all - 1
    } else {
        all
    }
}

/// The rank of the loser of the bracket at `(layer, position)`.
fn dropout_index(layer: u8, position: i32, max_layer: u8, no_brackets: u8) -> (r: i128)
    requires
        max_layer <= 63,
    ensures
        r == dropout_index_spec(layer as nat, position as int, max_layer as nat, no_brackets as nat),
        r < 0x8000_0000_0000_0000 + 0x1_0000_0000,
{
    if layer == max_layer {
        position as i128
    } else {
        let s = if layer < 255 {
            layers_size_exec(layer as u32 + 1, max_layer as u32)
        } else {
            0
        };
        proof {
            lemma_two_pow_64();
            lemma_two_pow_monotone(max_layer as nat, 63);
            lemma_two_pow_monotone(63, 64);
            assert(two_pow(63) == 0x8000_0000_0000_0000) by {
                assert(two_pow(64) == 2 * two_pow(63));
            }
            if layer as nat + 1 <= max_layer as nat {
                lemma_two_pow_pos(layer as nat + 1);
            }
        }
        no_brackets as i128 + s as i128 + position as i128
    }
}

/// Whether the slot of the loser of the bracket at `(layer, position)` is
/// determined.
pub fn dropout_is_defined(tt: TournamentType, layer: u8, position: i32, max_layer: u8, no_brackets: u8) -> (r: bool)
    requires
        max_layer <= 63,
    ensures
        r == dropout_defined(tt, layer as nat, position as int, max_layer as nat, no_brackets as nat),
{
    let count = dropout_count(tt, max_layer, no_brackets);
    if count < 1 {
        return true;
    }
    let d = dropout_index(layer, position, max_layer, no_brackets);
    if layer != max_layer && layer == 255 {
        return false;
    }
    if layer != max_layer && position < 0 && d >= 0 {
        return false;
    }
    let (depth, stickout) = next_tree_shape(count);
    let inv = inverted(count, d);
    if stickout as u128 * 2 > inv as u128 {
        true
    } else {
        proof {
            lemma_two_pow_pos(depth as nat);
        }
        let full = pow2_u64(depth) as i128;
        0 <= d && d < full
    }
}

/// Depth and stick-out of the next tree, laid out for `count` teams.
fn next_tree_shape(count: u64) -> (r: (u32, u64))
    requires
        count >= 1,
    ensures
        r.0 == next_tree_depth(count as nat),
        r.1 == next_tree_stickout(count as nat),
        1 <= r.0 < 64,
        two_pow(r.0 as nat) <= count || count == 1,
        two_pow(r.0 as nat) <= u64::MAX,
{
    if count == 1 {
        assert(two_pow(1) == 2) by {
            reveal_with_fuel(two_pow, 2);
        }
        (1, 0)
    } else {
        let depth = floor_log2_u64(count);
        proof {
            lemma_floor_log2_bounds(count as nat);
            if depth == 0 {
                assert(two_pow(1) == 2) by {
                    reveal_with_fuel(two_pow, 2);
                }
            }
        }
        let full = pow2_u64(depth) as u64;
        (depth, count - full)
    }
}

/// `inverted_index(count, d)` computed in machine arithmetic.
fn inverted(count: u64, d: i128) -> (r: u64)
    requires
        count >= 1,
    ensures
        r == inverted_index(count as nat, d as int),
{
    if 0 <= d && d <= count as i128 - 1 {
        (count as i128 - 1 - d) as u64
    } else {
        0
    }
}

/// The slot in the next tree that the loser of a decided bracket drops
/// into, or `None` when the tree sends no loser on.
pub fn dropout_update(
    tt: TournamentType,
    layer: u8,
    position: i32,
    max_layer: u8,
    no_brackets: u8,
    bracket: DecidedBracket,
) -> (r: Option<SlotUpdate>)
    requires
        max_layer <= 63,
        dropout_defined(tt, layer as nat, position as int, max_layer as nat, no_brackets as nat),
    ensures
        r == dropout_target(tt, layer as nat, position as int, max_layer as nat, no_brackets as nat, bracket),
        r is Some <==> dropout_count_spec(tt, max_layer as nat, no_brackets as nat) >= 1,
        r matches Some(u) ==> u.team == (if bracket.winner {
            bracket.team2
        } else {
            bracket.team1
        }),
{
    let count = dropout_count(tt, max_layer, no_brackets);
    if count < 1 {
        return None;
    }
    let d = dropout_index(layer, position, max_layer, no_brackets);
    let (depth, stickout) = next_tree_shape(count);
    let inv = inverted(count, d);
    let team = if !bracket.winner {
        bracket.team1
    } else {
        bracket.team2
    };
    if stickout as u128 * 2 > inv as u128 {
        Some(SlotUpdate { layer: depth, position: (inv / 2) as i64, team, set_team1: inv % 2 == 0 })
    } else {
        proof {
            lemma_two_pow_pos(depth as nat);
        }
        let full = pow2_u64(depth) as i128;
        Some(SlotUpdate { layer: depth - 1, position: ((full - 1 - d) / 2) as i64, team, set_team1: inv % 2 != 0 })
    }
}

} // verus!
