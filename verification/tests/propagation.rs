use backend::common::TournamentType;
use backend::generation::tree_bracket_plan;
use backend::propagation::{
    continues_to_next_tree, decided_bracket, dropout_count, dropout_is_defined, dropout_update,
    forward_update, DecidedBracket, SlotUpdate,
};

const B: DecidedBracket = DecidedBracket { team1: 11, team2: 22, winner: true };

/// The parent position computed as the first implementation did, in `f32`.
fn float_parent(layer: u8, position: i32) -> i32 {
    let layer_to_set = layer - 1;
    let layer_max_positions = 2usize.pow(layer as u32);
    let next_layer_max_positions = 2usize.pow(layer_to_set as u32);
    let pos = (position as f32 / layer_max_positions as f32) * next_layer_max_positions as f32;
    pos.floor() as i32
}

#[test]
fn forward_matches_float_parent() {
    for layer in 1..12u8 {
        for position in -50..2000i32 {
            let u = forward_update(layer, position, B).unwrap();
            assert_eq!(u.layer, (layer - 1) as u32);
            assert_eq!(u.position, float_parent(layer, position) as i64, "layer {layer} position {position}");
            assert_eq!(u.set_team1, position % 2 == 0);
            assert_eq!(u.team, 11);
        }
    }
    assert_eq!(forward_update(0, 0, B), None);
}

#[test]
fn forward_examples() {
    let loser_won = DecidedBracket { team1: 1, team2: 2, winner: false };
    assert_eq!(
        forward_update(2, 3, loser_won),
        Some(SlotUpdate { layer: 1, position: 1, team: 2, set_team1: false })
    );
    assert_eq!(
        forward_update(1, 0, B),
        Some(SlotUpdate { layer: 0, position: 0, team: 11, set_team1: true })
    );
}

#[test]
fn decided_needs_both_teams_and_winner() {
    assert_eq!(decided_bracket(Some(1), Some(2), Some(true)), Some(DecidedBracket { team1: 1, team2: 2, winner: true }));
    assert_eq!(decided_bracket(Some(1), None, Some(true)), None);
    assert_eq!(decided_bracket(Some(1), Some(2), None), None);
    assert_eq!(decided_bracket(None, Some(2), Some(false)), None);
}

#[test]
fn next_tree_exception_for_two_final_places() {
    assert!(!continues_to_next_tree(TournamentType::OneBracketTwoFinalPositions, 0, 0));
    assert!(continues_to_next_tree(TournamentType::OneBracketTwoFinalPositions, 1, 0));
    assert!(continues_to_next_tree(TournamentType::OneBracketOneFinalPositions, 0, 0));
}

/// The loser's slot in the next tree as the first implementation computed
/// it; `None` where it overflowed.
fn float_dropout(
    tt: TournamentType,
    layer: u8,
    position: i32,
    max_layer: u8,
    no_brackets: u8,
) -> Option<Option<(u32, usize, bool)>> {
    let max_no_dropouts_in_tree =
        1 + (1..max_layer).map(|l| 2usize.pow(l as u32)).sum::<usize>() + no_brackets as usize;
    let no_dropouts: usize = match tt {
        TournamentType::FFA => unreachable!(),
        TournamentType::OneBracketTwoFinalPositions => max_no_dropouts_in_tree - 1,
        TournamentType::OneBracketOneFinalPositions => max_no_dropouts_in_tree,
    };
    if no_dropouts < 1 {
        return Some(None);
    }
    let dropout_idx = if layer == max_layer {
        position as usize
    } else {
        let s = (layer.checked_add(1)?..max_layer).map(|l| 2usize.pow(l as u32)).sum::<usize>();
        (no_brackets as usize + s).checked_add(position as usize)?
    };
    let no_layers = (no_dropouts as f32).log2();
    let base_no_layers = if no_dropouts != 1 { no_layers.floor() as u32 } else { 1 };
    let no_stickout = no_dropouts.saturating_sub(2usize.pow(base_no_layers));
    let max_dropout_idx = no_dropouts as f32 - 1.0;
    let inverted = if max_dropout_idx == 0.0 {
        0.0
    } else {
        (1.0 - dropout_idx as f32 / max_dropout_idx) * max_dropout_idx
    };
    let inverted = inverted.round() as usize;
    if no_stickout * 2 > inverted {
        Some(Some((base_no_layers, (inverted as f32 / 2.0).floor() as usize, inverted % 2 == 0)))
    } else {
        let max_layer_idx = 2usize.pow(base_no_layers) - 1;
        let idx = max_layer_idx.checked_sub(dropout_idx)?;
        Some(Some((base_no_layers - 1, (idx as f32 / 2.0).floor() as usize, inverted % 2 != 0)))
    }
}

#[test]
fn dropout_matches_float_computation() {
    for tt in [TournamentType::OneBracketOneFinalPositions, TournamentType::OneBracketTwoFinalPositions] {
        for max_layer in 0..6u8 {
            for no_brackets in 0..40u8 {
                for layer in 0..8u8 {
                    for position in -3..40i32 {
                        let expected = float_dropout(tt, layer, position, max_layer, no_brackets);
                        let defined = dropout_is_defined(tt, layer, position, max_layer, no_brackets);
                        assert_eq!(defined, expected.is_some(), "{tt:?} {layer} {position} {max_layer} {no_brackets}");
                        if defined {
                            let got = dropout_update(tt, layer, position, max_layer, no_brackets, B)
                                .map(|u| (u.layer, u.position as usize, u.set_team1));
                            assert_eq!(Some(got), expected, "{tt:?} {layer} {position} {max_layer} {no_brackets}");
                        }
                    }
                }
            }
        }
    }
}

#[test]
fn dropout_counts_match_next_tree() {
    for m in 3..200usize {
        let plan = tree_bracket_plan(&[], m);
        let max_layer = plan.iter().map(|b| b.layer).max().unwrap() as u8;
        let no_brackets = plan.iter().filter(|b| b.layer == max_layer as u32).count() as u8;
        assert_eq!(dropout_count(TournamentType::OneBracketOneFinalPositions, max_layer, no_brackets), (m - 1) as u64);
        assert_eq!(dropout_count(TournamentType::OneBracketTwoFinalPositions, max_layer, no_brackets), (m - 2) as u64);
    }
    // a two-team tree counts its final twice
    assert_eq!(dropout_count(TournamentType::OneBracketOneFinalPositions, 0, 1), 2);
}

#[test]
fn losers_of_a_tree_fill_the_next_one() {
    for m in 3..120usize {
        let plan = tree_bracket_plan(&[], m);
        let max_layer = plan.iter().map(|b| b.layer).max().unwrap() as u8;
        let no_brackets = plan.iter().filter(|b| b.layer == max_layer as u32).count() as u8;
        let next = tree_bracket_plan(&[], m - 1);
        let mut slots = Vec::new();
        for b in &plan {
            let (layer, position) = (b.layer as u8, b.position as i32);
            let tt = TournamentType::OneBracketOneFinalPositions;
            assert!(dropout_is_defined(tt, layer, position, max_layer, no_brackets));
            let u = dropout_update(tt, layer, position, max_layer, no_brackets, B).unwrap();
            assert_eq!(u.team, 22);
            assert!(next.iter().any(|n| n.layer == u.layer && n.position as i64 == u.position));
            slots.push((u.layer, u.position, u.set_team1));
        }
        let n = slots.len();
        slots.sort();
        slots.dedup();
        assert_eq!(slots.len(), n);
    }
}

#[test]
fn next_trees_fit_the_losers() {
    use_plan_sizes(TournamentType::OneBracketOneFinalPositions, 20, 6);
    use_plan_sizes(TournamentType::OneBracketTwoFinalPositions, 21, 9);
}

fn use_plan_sizes(tt: TournamentType, n: usize, places: u32) {
    let trees = backend::generation::plan_trees(tt, n, places);
    for w in trees.windows(2) {
        let plan = tree_bracket_plan(&[], w[0].no_teams);
        let max_layer = plan.iter().map(|b| b.layer).max().unwrap() as u8;
        let no_brackets = plan
            .iter()
            .filter(|b| b.layer == max_layer as u32)
            .map(|b| b.position + 1)
            .max()
            .unwrap() as u8;
        assert_eq!(dropout_count(tt, max_layer, no_brackets), w[1].no_teams as u64);
    }
}

#[test]
fn two_final_places_losers_land() {
    let tt = TournamentType::OneBracketTwoFinalPositions;
    for m in 3..100usize {
        let plan = tree_bracket_plan(&[], m);
        let max_layer = plan.iter().map(|b| b.layer).max().unwrap() as u8;
        let no_brackets = plan.iter().filter(|b| b.layer == max_layer as u32).count() as u8;
        let next = tree_bracket_plan(&[], m - 2);
        let mut slots = Vec::new();
        for b in &plan {
            let (layer, position) = (b.layer as u8, b.position as i32);
            if !continues_to_next_tree(tt, layer, position) {
                continue;
            }
            assert!(dropout_is_defined(tt, layer, position, max_layer, no_brackets));
            let u = dropout_update(tt, layer, position, max_layer, no_brackets, B).unwrap();
            assert!(next.iter().any(|n| n.layer == u.layer && n.position as i64 == u.position), "m = {m}");
            slots.push((u.layer, u.position, u.set_team1));
        }
        let n = slots.len();
        slots.sort();
        slots.dedup();
        assert_eq!(slots.len(), n);
        assert_eq!(n, m - 2);
    }
}
