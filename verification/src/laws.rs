//! Properties of generated bracket trees and of propagation through them.
use vstd::prelude::*;

use crate::common::TournamentType;
use crate::generation::{
    planned_slot, planned_tree_brackets, planned_trees, round_robin, slot_layer, slot_position, tree_bracket_count, tree_depth,
    tree_stickout,
};
use crate::math::{
    floor_log2, lemma_floor_log2_bounds, lemma_floor_log2_unique, lemma_two_pow_64,
    lemma_two_pow_monotone, lemma_two_pow_pos, two_pow,
};
use crate::propagation::{
    continues_to_next_tree_spec, dropout_count_spec, dropout_defined, dropout_index_spec,
    dropout_target, forward_target, inverted_index, lands_on_stickout, lemma_layers_size,
    next_tree_depth, next_tree_stickout, DecidedBracket,
};

verus! {

/// The shape of a tree for `n >= 1` teams.
proof fn lemma_tree_shape(n: nat)
    requires
        n >= 1,
    ensures
        tree_depth(n) >= 1,
        two_pow(tree_depth(n)) == 2 * two_pow((tree_depth(n) - 1) as nat),
        tree_stickout(n) < two_pow(tree_depth(n)),
        tree_bracket_count(n) == tree_stickout(n) + two_pow(tree_depth(n)) - 1,
        n >= 2 ==> tree_bracket_count(n) == n - 1,
        n >= 2 ==> tree_stickout(n) == n - two_pow(tree_depth(n)),
        n == 1 ==> tree_bracket_count(n) == 1 && tree_stickout(n) == 0,
{
    if n == 1 {
        reveal_with_fuel(two_pow, 2);
    } else {
        lemma_floor_log2_bounds(n);
        let d = floor_log2(n);
        if d == 0 {
            reveal_with_fuel(two_pow, 2);
        }
        assert(two_pow(d + 1) == 2 * two_pow(d));
    }
    lemma_two_pow_pos((tree_depth(n) - 1) as nat);
}

/// A bracket emitted after the stick-out layer sits at heap index
/// `k = count - i`: layer `floor_log2(k)`, position `k - 2^layer`.
proof fn lemma_heap_slot(n: nat, i: nat)
    requires
        n >= 1,
        tree_stickout(n) <= i < tree_bracket_count(n),
    ensures
        ({
            let k = (tree_bracket_count(n) - i) as nat;
            &&& 1 <= k <= two_pow(tree_depth(n)) - 1
            &&& slot_layer(n, i) == floor_log2(k)
            &&& floor_log2(k) < tree_depth(n)
            &&& two_pow(floor_log2(k)) <= k < two_pow(floor_log2(k) + 1)
            &&& slot_position(n, i) == k - two_pow(floor_log2(k))
            &&& slot_position(n, i) < two_pow(slot_layer(n, i))
        }),
{
    lemma_tree_shape(n);
    let k = (tree_bracket_count(n) - i) as nat;
    lemma_floor_log2_bounds(k);
    let l = floor_log2(k);
    assert(two_pow(l + 1) == 2 * two_pow(l));
    if l >= tree_depth(n) {
        lemma_two_pow_monotone(tree_depth(n), l);
    }
}

/// The bracket at layer `l < depth` and position `p < 2^l` is emitted at
/// index `count - (2^l + p)`.
proof fn lemma_heap_index(n: nat, l: nat, p: nat)
    requires
        n >= 1,
        l < tree_depth(n),
        p < two_pow(l),
    ensures
        tree_stickout(n) <= tree_bracket_count(n) - (two_pow(l) + p) < tree_bracket_count(n),
        slot_layer(n, (tree_bracket_count(n) - (two_pow(l) + p)) as nat) == l,
        slot_position(n, (tree_bracket_count(n) - (two_pow(l) + p)) as nat) == p,
{
    lemma_tree_shape(n);
    let k = two_pow(l) + p;
    assert(two_pow(l + 1) == 2 * two_pow(l));
    lemma_two_pow_monotone(l + 1, tree_depth(n));
    lemma_two_pow_pos(l);
    lemma_floor_log2_unique(k, l);
    let i = (tree_bracket_count(n) - k) as nat;
    assert(tree_bracket_count(n) - i == k);
}

/// A tree for `n` teams holds `n - 1` brackets (one for a single team), and
/// each of its brackets is placed on a layer of the tree: the stick-out
/// layer `depth` at a position below the stick-out count, or a full layer
/// `l < depth` at a position below `2^l`.
pub proof fn law_tree_layout(n: nat, i: nat)
    requires
        n >= 1,
        i < tree_bracket_count(n),
    ensures
        n >= 2 ==> tree_bracket_count(n) == n - 1,
        n == 1 ==> tree_bracket_count(n) == 1,
        slot_layer(n, i) <= tree_depth(n),
        slot_layer(n, i) == tree_depth(n) ==> slot_position(n, i) < tree_stickout(n),
        slot_layer(n, i) < tree_depth(n) ==> slot_position(n, i) < two_pow(slot_layer(n, i)),
{
    lemma_tree_shape(n);
    if i >= tree_stickout(n) {
        lemma_heap_slot(n, i);
    }
}

/// No two brackets of a tree share a layer and position.
pub proof fn law_tree_places_distinct(n: nat, i: nat, j: nat)
    requires
        n >= 1,
        i < tree_bracket_count(n),
        j < tree_bracket_count(n),
        i != j,
    ensures
        slot_layer(n, i) != slot_layer(n, j) || slot_position(n, i) != slot_position(n, j),
{
    lemma_tree_shape(n);
    if i >= tree_stickout(n) {
        lemma_heap_slot(n, i);
    }
    if j >= tree_stickout(n) {
        lemma_heap_slot(n, j);
    }
}

/// Every team seeded into a tree laid out for as many teams gets a slot:
/// team `t` is the second team of bracket `t / 2` when `t` is even and its
/// first team when `t` is odd.
pub proof fn law_every_team_seeded(teams: Seq<u128>, t: nat)
    requires
        teams.len() >= 1,
        t < teams.len(),
    ensures
        t / 2 < tree_bracket_count(teams.len()),
        t % 2 == 0 ==> planned_slot(teams, teams.len(), t / 2).team2 == Some(teams[t as int]),
        t % 2 == 1 ==> planned_slot(teams, teams.len(), t / 2).team1 == Some(teams[t as int]),
{
    lemma_tree_shape(teams.len());
    assert(t % 2 == 0 ==> 2 * (t / 2) == t);
    assert(t % 2 == 1 ==> 2 * (t / 2) + 1 == t);
}

/// Trees of fewer than `2^64` teams have fewer than 64 layers.
proof fn lemma_depth_small(n: nat)
    requires
        1 <= n < 0x1_0000_0000_0000_0000,
    ensures
        tree_depth(n) < 64,
{
    if n >= 2 {
        lemma_floor_log2_bounds(n);
        lemma_two_pow_64();
        if floor_log2(n) >= 64 {
            lemma_two_pow_monotone(64, floor_log2(n));
        }
    }
}

/// The winner of any bracket below the final moves into a bracket of the
/// same tree: the parent one layer up, at half the position.
pub proof fn law_winner_stays_in_tree(n: nat, i: nat, b: DecidedBracket)
    requires
        1 <= n < 0x1_0000_0000_0000_0000,
        i < tree_bracket_count(n),
        slot_layer(n, i) >= 1,
    ensures
        forward_target(slot_layer(n, i), slot_position(n, i) as int, b) matches Some(u) && exists|j: nat|
            #![trigger slot_layer(n, j)]
            j < tree_bracket_count(n) && slot_layer(n, j) == u.layer && slot_position(n, j) == u.position,
{
    lemma_tree_shape(n);
    lemma_depth_small(n);
    let depth = tree_depth(n);
    let (l, p) = if i < tree_stickout(n) {
        (depth, i)
    } else {
        lemma_heap_slot(n, i);
        (slot_layer(n, i), slot_position(n, i))
    };
    assert(l == slot_layer(n, i) && p == slot_position(n, i));
    assert(two_pow(l) == 2 * two_pow((l - 1) as nat));
    assert(p / 2 < two_pow((l - 1) as nat));
    lemma_heap_index(n, (l - 1) as nat, p / 2);
    let j = (tree_bracket_count(n) - (two_pow((l - 1) as nat) + p / 2)) as nat;
    assert(slot_layer(n, j) == l - 1 && slot_position(n, j) == p / 2);
    lemma_two_pow_monotone(depth, 64);
    lemma_two_pow_64();
}

/// The deepest layer of a tree for `n` teams.
pub open spec fn deepest_layer(n: nat) -> nat {
    if tree_stickout(n) > 0 {
        tree_depth(n)
    } else {
        (tree_depth(n) - 1) as nat
    }
}

/// The number of brackets on the deepest layer of a tree for `n` teams.
pub open spec fn deepest_count(n: nat) -> nat {
    if tree_stickout(n) > 0 {
        tree_stickout(n)
    } else {
        two_pow((tree_depth(n) - 1) as nat)
    }
}

/// `deepest_layer` is the highest layer number of a tree, and the brackets
/// on it take the positions `0..deepest_count`.
pub proof fn law_deepest_layer(n: nat, i: nat)
    requires
        n >= 1,
        i < tree_bracket_count(n),
    ensures
        slot_layer(n, i) <= deepest_layer(n),
        slot_layer(n, i) == deepest_layer(n) ==> slot_position(n, i) < deepest_count(n),
        exists|j: nat|
            #![trigger slot_layer(n, j)]
            j < tree_bracket_count(n) && slot_layer(n, j) == deepest_layer(n) && slot_position(n, j) + 1
                == deepest_count(n),
{
    lemma_tree_shape(n);
    let depth = tree_depth(n);
    if i >= tree_stickout(n) {
        lemma_heap_slot(n, i);
        if slot_layer(n, i) == depth - 1 {
            assert(slot_position(n, i) < two_pow((depth - 1) as nat));
        }
    }
    if tree_stickout(n) > 0 {
        let j = (tree_stickout(n) - 1) as nat;
        assert(slot_layer(n, j) == deepest_layer(n) && slot_position(n, j) + 1 == deepest_count(n));
    } else {
        let h = two_pow((depth - 1) as nat);
        lemma_two_pow_pos((depth - 1) as nat);
        lemma_heap_index(n, (depth - 1) as nat, (h - 1) as nat);
        let j = (tree_bracket_count(n) - (h + (h - 1))) as nat;
        assert(slot_layer(n, j) == deepest_layer(n) && slot_position(n, j) + 1 == deepest_count(n));
    }
}

/// A tree of `m >= 3` teams sends on `m - 1` losers in a one-final-place
/// tournament and `m - 2` in a two-final-places one (the final's loser
/// stays): exactly the number of teams the next tree is laid out for.
/// (A two-team tree, whose deepest layer is the final, is counted as
/// sending on two.)
pub proof fn law_loser_count(tt: TournamentType, m: nat)
    requires
        m >= 3,
        tt != TournamentType::FFA,
    ensures
        dropout_count_spec(tt, deepest_layer(m), deepest_count(m)) == if tt
            == TournamentType::OneBracketOneFinalPositions {
            m - 1
        } else {
            m - 2
        },
{
    lemma_tree_shape(m);
    let depth = tree_depth(m);
    assert(deepest_layer(m) >= 1) by {
        if tree_stickout(m) == 0 && depth == 1 {
            assert(two_pow(1) == 2 * two_pow(0));
        }
    }
    lemma_layers_size(1, deepest_layer(m));
    assert(two_pow(1) == 2 * two_pow(0));
}

/// Each later tree of a tournament is laid out for exactly the losers that
/// the tree before it sends on.
pub proof fn law_next_tree_fits_losers(tt: TournamentType, n: nat, places: nat, q: int)
    requires
        tt != TournamentType::FFA,
        1 <= n <= usize::MAX,
        0 <= q,
        q + 1 < planned_trees(tt, n, places).len(),
        planned_trees(tt, n, places)[q].no_teams >= 3,
    ensures
        ({
            let trees = planned_trees(tt, n, places);
            let m = trees[q].no_teams as nat;
            trees[q + 1].no_teams == dropout_count_spec(tt, deepest_layer(m), deepest_count(m))
        }),
{
    let trees = planned_trees(tt, n, places);
    let m = trees[q].no_teams as nat;
    law_loser_count(tt, m);
    if tt == TournamentType::OneBracketOneFinalPositions {
        assert(m == n - q);
        assert(trees[q + 1].no_teams == n - (q + 1));
    } else {
        assert(m == n - 2 * q);
        assert(trees[q + 1].no_teams == n - 2 * (q + 1));
    }
}

/// The rank of the loser of a bracket of a tree of `m >= 3` teams among
/// the tree's losers lies in `0..m - 1`.
pub proof fn law_loser_rank_in_range(m: nat, i: nat)
    requires
        m >= 3,
        i < tree_bracket_count(m),
    ensures
        0 <= dropout_index_spec(slot_layer(m, i), slot_position(m, i) as int, deepest_layer(m), deepest_count(m)) < m - 1,
{
    lemma_rank_interval(m, i);
}

/// Ranks of the brackets on layer `l` below the deepest fill an interval.
proof fn lemma_rank_interval(m: nat, i: nat)
    requires
        m >= 3,
        i < tree_bracket_count(m),
    ensures
        ({
            let l = slot_layer(m, i);
            let d = dropout_index_spec(l, slot_position(m, i) as int, deepest_layer(m), deepest_count(m));
            let big = two_pow(deepest_layer(m));
            &&& l == deepest_layer(m) ==> 0 <= d < deepest_count(m)
            &&& l < deepest_layer(m) ==> deepest_count(m) + big - two_pow(l + 1) <= d < deepest_count(m)
                + big - two_pow(l)
            &&& m - 1 == deepest_count(m) + big - 1
            &&& l <= deepest_layer(m)
            &&& l < deepest_layer(m) ==> slot_position(m, i) < two_pow(l)
        }),
{
    lemma_tree_shape(m);
    law_deepest_layer(m, i);
    law_tree_layout(m, i);
    law_loser_count(TournamentType::OneBracketOneFinalPositions, m);
    let l = slot_layer(m, i);
    let dl = deepest_layer(m);
    assert(dl >= 1) by {
        if tree_stickout(m) == 0 && tree_depth(m) == 1 {
            assert(two_pow(1) == 2 * two_pow(0));
        }
    }
    lemma_layers_size(1, dl);
    assert(two_pow(1) == 2 * two_pow(0));
    if l < dl {
        lemma_layers_size(l + 1, dl);
        assert(two_pow(l + 1) == 2 * two_pow(l));
        if l == tree_depth(m) {
            assert(false);
        }
    }
}

/// No two brackets of a tree of `m >= 3` teams share a loser rank.
pub proof fn law_loser_ranks_distinct(m: nat, i: nat, j: nat)
    requires
        m >= 3,
        i < tree_bracket_count(m),
        j < tree_bracket_count(m),
        i != j,
    ensures
        dropout_index_spec(slot_layer(m, i), slot_position(m, i) as int, deepest_layer(m), deepest_count(m))
            != dropout_index_spec(slot_layer(m, j), slot_position(m, j) as int, deepest_layer(m), deepest_count(m)),
{
    lemma_rank_interval(m, i);
    lemma_rank_interval(m, j);
    law_tree_places_distinct(m, i, j);
    let li = slot_layer(m, i);
    let lj = slot_layer(m, j);
    if li < lj && lj < deepest_layer(m) {
        lemma_two_pow_monotone(li + 1, lj);
    }
    if lj < li && li < deepest_layer(m) {
        lemma_two_pow_monotone(lj + 1, li);
    }
}

/// The number of losers of a tree with a deepest layer below 64 is below
/// `2^64`.
proof fn lemma_count_small(tt: TournamentType, max_layer: nat, no_brackets: nat)
    requires
        max_layer <= 63,
        no_brackets <= 255,
    ensures
        dropout_count_spec(tt, max_layer, no_brackets) < 0x1_0000_0000_0000_0000 - 1,
{
    if max_layer >= 1 {
        lemma_layers_size(1, max_layer);
        lemma_two_pow_monotone(max_layer, 63);
        lemma_two_pow_64();
        assert(two_pow(64) == 2 * two_pow(63));
    }
}

/// A loser whose rank is below the number of losers lands in a bracket of
/// the next tree, which is laid out for that number of teams; its slot is
/// then determined.
pub proof fn law_loser_lands_in_next_tree(
    tt: TournamentType,
    layer: nat,
    position: int,
    max_layer: nat,
    no_brackets: nat,
    b: DecidedBracket,
)
    requires
        tt != TournamentType::FFA,
        max_layer <= 63,
        no_brackets <= 255,
        layer <= max_layer,
        position >= 0,
        0 <= dropout_index_spec(layer, position, max_layer, no_brackets) < dropout_count_spec(tt, max_layer, no_brackets),
    ensures
        dropout_defined(tt, layer, position, max_layer, no_brackets),
        ({
            let c = dropout_count_spec(tt, max_layer, no_brackets) as nat;
            dropout_target(tt, layer, position, max_layer, no_brackets, b) matches Some(u) && exists|j: nat|
                #![trigger slot_layer(c, j)]
                j < tree_bracket_count(c) && slot_layer(c, j) == u.layer && slot_position(c, j) == u.position
        }),
{
    lemma_count_small(tt, max_layer, no_brackets);
    let c = dropout_count_spec(tt, max_layer, no_brackets) as nat;
    let d = dropout_index_spec(layer, position, max_layer, no_brackets);
    lemma_tree_shape(c);
    lemma_depth_small(c);
    assert(next_tree_depth(c) == tree_depth(c));
    assert(next_tree_stickout(c) == tree_stickout(c));
    let depth = tree_depth(c);
    let s = tree_stickout(c);
    let inv = inverted_index(c, d);
    assert(inv == c - 1 - d);
    lemma_two_pow_monotone(depth, 64);
    lemma_two_pow_64();
    if lands_on_stickout(c, d) {
        let j = inv / 2;
        assert(slot_layer(c, j) == depth && slot_position(c, j) == j);
    } else {
        if c == 1 {
            assert(two_pow(1) == 2 * two_pow(0));
            assert(slot_layer(1, 0) == 0 && slot_position(1, 0) == 0) by {
                lemma_heap_slot(1, 0);
                assert(floor_log2(1) == 0);
            }
        } else {
            let q = ((two_pow(depth) - 1 - d) / 2) as nat;
            assert(q < two_pow((depth - 1) as nat));
            lemma_heap_index(c, (depth - 1) as nat, q);
            let j = (tree_bracket_count(c) - (two_pow((depth - 1) as nat) + q)) as nat;
            assert(slot_layer(c, j) == depth - 1 && slot_position(c, j) == q);
        }
    }
}

/// Two losers of different ranks land in different slots of the next tree.
pub proof fn law_losers_land_apart(
    tt: TournamentType,
    max_layer: nat,
    no_brackets: nat,
    layer1: nat,
    position1: int,
    layer2: nat,
    position2: int,
    b1: DecidedBracket,
    b2: DecidedBracket,
)
    requires
        tt != TournamentType::FFA,
        max_layer <= 63,
        no_brackets <= 255,
        layer1 <= max_layer,
        layer2 <= max_layer,
        position1 >= 0,
        position2 >= 0,
        0 <= dropout_index_spec(layer1, position1, max_layer, no_brackets) < dropout_count_spec(tt, max_layer, no_brackets),
        0 <= dropout_index_spec(layer2, position2, max_layer, no_brackets) < dropout_count_spec(tt, max_layer, no_brackets),
        dropout_index_spec(layer1, position1, max_layer, no_brackets) != dropout_index_spec(layer2, position2, max_layer, no_brackets),
    ensures
        ({
            let u1 = dropout_target(tt, layer1, position1, max_layer, no_brackets, b1)->Some_0;
            let u2 = dropout_target(tt, layer2, position2, max_layer, no_brackets, b2)->Some_0;
            u1.layer != u2.layer || u1.position != u2.position || u1.set_team1 != u2.set_team1
        }),
{
    lemma_count_small(tt, max_layer, no_brackets);
    let c = dropout_count_spec(tt, max_layer, no_brackets) as nat;
    let d1 = dropout_index_spec(layer1, position1, max_layer, no_brackets);
    let d2 = dropout_index_spec(layer2, position2, max_layer, no_brackets);
    lemma_tree_shape(c);
    lemma_depth_small(c);
    let depth = next_tree_depth(c);
    assert(depth == tree_depth(c));
    lemma_two_pow_monotone(depth, 64);
    lemma_two_pow_64();
    let i1 = inverted_index(c, d1);
    let i2 = inverted_index(c, d2);
    assert(i1 == c - 1 - d1 && i2 == c - 1 - d2);
    let u1 = dropout_target(tt, layer1, position1, max_layer, no_brackets, b1)->Some_0;
    let u2 = dropout_target(tt, layer2, position2, max_layer, no_brackets, b2)->Some_0;
    let full = two_pow(depth);
    if lands_on_stickout(c, d1) && lands_on_stickout(c, d2) {
        assert(u1.layer == u2.layer);
        assert(u1.position == i1 / 2 && u2.position == i2 / 2);
        assert(u1.set_team1 == (i1 % 2 == 0) && u2.set_team1 == (i2 % 2 == 0));
        lemma_halves_differ(i1 as int, i2 as int);
    } else if !lands_on_stickout(c, d1) && !lands_on_stickout(c, d2) {
        assert(u1.layer == u2.layer);
        assert(u1.position == (full - 1 - d1) / 2 && u2.position == (full - 1 - d2) / 2);
        assert(u1.set_team1 == (i1 % 2 != 0) && u2.set_team1 == (i2 % 2 != 0));
        lemma_halves_differ(full - 1 - d1, full - 1 - d2);
    } else {
        assert(u1.layer != u2.layer);
    }
}

/// Distinct non-negative numbers differ in their half or their parity.
proof fn lemma_halves_differ(x: int, y: int)
    requires
        x >= 0,
        y >= 0,
        x != y,
    ensures
        x / 2 != y / 2 || x % 2 != y % 2,
{
}

/// The index at which the pairings of team `i` start among the `n` teams
/// of a free-for-all: after the `n - 1` pairings of team 0, the `n - 2` of
/// team 1, and so on.
pub open spec fn row_start(n: nat, i: nat) -> int
    decreases i,
{
    if i == 0 {
        0
    } else {
        (n - 1) + row_start((n - 1) as nat, (i - 1) as nat)
    }
}

/// The index of the pairing of team `i` with a later team `j` among the
/// `n` teams of a free-for-all.
pub open spec fn pair_index(n: nat, i: nat, j: nat) -> int {
    row_start(n, i) + (j - i - 1)
}

/// The closed form of `row_start`: `2 row_start(n, i) == i (2n - i - 1)`.
pub proof fn lemma_row_start(n: nat, i: nat)
    requires
        i <= n,
    ensures
        2 * row_start(n, i) == i * (2 * n - i - 1),
    decreases i,
{
    if i > 0 {
        let m = (n - 1) as nat;
        let h = (i - 1) as nat;
        lemma_row_start(m, h);
        assert(2 * row_start(n, i) == 2 * m + 2 * row_start(m, h));
        assert(2 * m + h * (2 * m - h - 1) == i * (2 * n - i - 1)) by (nonlinear_arith)
            requires
                m == n - 1,
                h == i - 1,
        ;
    } else {
        assert(i * (2 * n - i - 1) == 0) by (nonlinear_arith)
            requires
                i == 0,
        ;
    }
}

/// A free-for-all of `n` teams holds `n (n - 1) / 2` brackets, and the
/// pairing of teams `i < j` stands at `pair_index(n, i, j)`.
pub proof fn law_round_robin(teams: Seq<u128>, i: nat, j: nat)
    requires
        i < j < teams.len(),
    ensures
        round_robin(teams).len() == teams.len() * (teams.len() - 1) / 2,
        0 <= pair_index(teams.len(), i, j) < round_robin(teams).len(),
        round_robin(teams)[pair_index(teams.len(), i, j)] == (teams[i as int], teams[j as int]),
    decreases teams.len(),
{
    let n = teams.len();
    let rest = teams.drop_first();
    lemma_round_robin_len(teams);
    if i == 0 {
        assert(round_robin(teams) == rest.map_values(|t: u128| (teams[0], t)) + round_robin(rest));
    } else {
        law_round_robin(rest, (i - 1) as nat, (j - 1) as nat);
        assert(round_robin(teams) == rest.map_values(|t: u128| (teams[0], t)) + round_robin(rest));
        assert(rest[(i - 1) as int] == teams[i as int] && rest[(j - 1) as int] == teams[j as int]);
    }
}

/// The number of pairings of `n` teams.
proof fn lemma_round_robin_len(teams: Seq<u128>)
    ensures
        round_robin(teams).len() == teams.len() * (teams.len() - 1) / 2,
    decreases teams.len(),
{
    if teams.len() > 0 {
        let n = teams.len();
        lemma_round_robin_len(teams.drop_first());
        assert((n - 1) + (n - 1) * (n - 2) / 2 == n * (n - 1) / 2) by (nonlinear_arith)
            requires
                n >= 1,
        ;
    }
}

/// Every free-for-all bracket pairs a team with a later team.
pub proof fn law_round_robin_pairs(teams: Seq<u128>, k: int)
    requires
        0 <= k < round_robin(teams).len(),
    ensures
        exists|i: int, j: int|
            0 <= i < j < teams.len() && round_robin(teams)[k] == (teams[i], teams[j]),
    decreases teams.len(),
{
    let rest = teams.drop_first();
    let row = rest.map_values(|t: u128| (teams[0], t));
    assert(round_robin(teams) == row + round_robin(rest));
    if k < row.len() {
        assert(round_robin(teams)[k] == (teams[0], teams[k + 1]));
    } else {
        law_round_robin_pairs(rest, k - row.len());
        let (i, j) = choose|i: int, j: int|
            0 <= i < j < rest.len() && round_robin(rest)[k - row.len()] == (rest[i], rest[j]);
        assert(round_robin(teams)[k] == (teams[i + 1], teams[j + 1]));
    }
}

/// In a generated tree of `m >= 3` teams, the loser of every bracket that
/// sends its loser on lands in a bracket of the next tree (given the tree's
/// deepest layer and its bracket count as the service reads them back).
pub proof fn law_generated_losers_land(tt: TournamentType, m: nat, i: nat, b: DecidedBracket)
    requires
        tt != TournamentType::FFA,
        3 <= m < 0x1_0000_0000_0000_0000,
        deepest_count(m) <= 255,
        i < tree_bracket_count(m),
        continues_to_next_tree_spec(tt, slot_layer(m, i), slot_position(m, i) as int),
    ensures
        dropout_defined(tt, slot_layer(m, i), slot_position(m, i) as int, deepest_layer(m), deepest_count(m)),
        ({
            let c = dropout_count_spec(tt, deepest_layer(m), deepest_count(m)) as nat;
            dropout_target(tt, slot_layer(m, i), slot_position(m, i) as int, deepest_layer(m), deepest_count(m), b) matches Some(u)
                && exists|j: nat|
                #![trigger slot_layer(c, j)]
                j < tree_bracket_count(c) && slot_layer(c, j) == u.layer && slot_position(c, j) == u.position
        }),
{
    lemma_tree_shape(m);
    lemma_depth_small(m);
    law_deepest_layer(m, i);
    law_loser_count(tt, m);
    lemma_rank_interval(m, i);
    if tt == TournamentType::OneBracketTwoFinalPositions {
        lemma_two_pow_pos(0);
        assert(two_pow(0) == 1);
        lemma_heap_index(m, 0, 0);
        let j = (tree_bracket_count(m) - 1) as nat;
        lemma_rank_interval(m, j);
        assert(slot_layer(m, j) == 0 && slot_position(m, j) == 0);
        if i != j {
            law_loser_ranks_distinct(m, i, j);
        }
    }
    law_loser_lands_in_next_tree(tt, slot_layer(m, i), slot_position(m, i) as int, deepest_layer(m), deepest_count(m), b);
}

/// The winner of a decided bracket below the final moves up: the team that
/// lands in the parent bracket is `team1` when `team1` won and `team2` when
/// `team2` won, at every layer and position, never the loser when the two
/// teams differ; the final's winner goes nowhere.
pub proof fn law_forward_moves_winner(layer: nat, position: int, b: DecidedBracket)
    ensures
        layer == 0 ==> forward_target(layer, position, b) is None,
        layer > 0 ==> (forward_target(layer, position, b) matches Some(u) && u.team == (if b.winner {
            b.team1
        } else {
            b.team2
        }) && u.set_team1 == (position % 2 == 0)),
        layer > 0 && b.team1 != b.team2 ==> (forward_target(layer, position, b) matches Some(u) && u.team != (
        if b.winner {
            b.team2
        } else {
            b.team1
        })),
{
}

/// The loser of a decided bracket drops into the next tree: whenever the
/// tree sends losers on, the team placed there is `team2` when `team1` won
/// and `team1` when `team2` won, never the winner when the two teams differ.
pub proof fn law_dropout_sends_loser(
    tt: TournamentType,
    layer: nat,
    position: int,
    max_layer: nat,
    no_brackets: nat,
    b: DecidedBracket,
)
    ensures
        dropout_target(tt, layer, position, max_layer, no_brackets, b) is Some <==> dropout_count_spec(
            tt,
            max_layer,
            no_brackets,
        ) >= 1,
        dropout_target(tt, layer, position, max_layer, no_brackets, b) matches Some(u) ==> u.team == (
        if b.winner {
            b.team2
        } else {
            b.team1
        }),
        dropout_target(tt, layer, position, max_layer, no_brackets, b) matches Some(u) ==> (b.team1
            != b.team2 ==> u.team != (if b.winner {
            b.team1
        } else {
            b.team2
        })),
{
}

/// A decided bracket below the final splits its two teams: the team moved
/// up and the team dropped into the next tree are the bracket's two teams,
/// one each.
pub proof fn law_winner_and_loser_split(
    tt: TournamentType,
    layer: nat,
    position: int,
    max_layer: nat,
    no_brackets: nat,
    b: DecidedBracket,
)
    requires
        layer > 0,
        dropout_count_spec(tt, max_layer, no_brackets) >= 1,
    ensures
        forward_target(layer, position, b) matches Some(u) && dropout_target(
            tt,
            layer,
            position,
            max_layer,
            no_brackets,
            b,
        ) matches Some(v) && ((u.team == b.team1 && v.team == b.team2) || (u.team == b.team2 && v.team
            == b.team1)),
{
}

/// In an elimination tournament only the main tree is seeded: every tree
/// after it starts with no team and no winner in any of its brackets, to be
/// filled by the losers of the tree before it.
pub proof fn law_later_trees_start_empty(tt: TournamentType, teams: Seq<u128>, places: nat, q: int, k: int)
    requires
        tt != TournamentType::FFA,
        1 <= q < planned_trees(tt, teams.len(), places).len(),
    ensures
        !planned_trees(tt, teams.len(), places)[q].seeded,
        planned_tree_brackets(tt, teams, planned_trees(tt, teams.len(), places)[q], k).team1 is None,
        planned_tree_brackets(tt, teams, planned_trees(tt, teams.len(), places)[q], k).team2 is None,
        planned_tree_brackets(tt, teams, planned_trees(tt, teams.len(), places)[q], k).winner is None,
{
    let n = teams.len();
    let trees = planned_trees(tt, n, places);
    let head = crate::generation::main_tree(n);
    let extra = trees.subrange(head.len() as int, trees.len() as int);
    assert(trees =~= head + extra);
    assert(head.len() <= 1);
    assert(trees[q] == extra[q - head.len()]);
    assert(!trees[q].seeded);
}

/// The winners of the two sibling brackets at positions `2k` and `2k + 1`
/// of a layer meet in the same parent bracket, at position `k` one layer
/// up: the first as its `team1`, the second as its `team2`.
pub proof fn law_siblings_meet(layer: nat, k: nat, b1: DecidedBracket, b2: DecidedBracket)
    requires
        1 <= layer <= 0x1_0000_0000,
        2 * k + 1 < 0x8000_0000_0000_0000,
    ensures
        forward_target(layer, (2 * k) as int, b1) matches Some(u) && forward_target(layer, (2 * k + 1) as int, b2) matches Some(
            v,
        ) && u.layer == layer - 1 && v.layer == layer - 1 && u.position == k && v.position == k
            && u.set_team1 && !v.set_team1,
{
    assert((2 * k) / 2 == k && (2 * k + 1) / 2 == k && (2 * k) % 2 == 0 && (2 * k + 1) % 2 == 1) by (nonlinear_arith);
}

} // verus!
