use backend::common::TournamentType;
use backend::generation::{bracket_generation_plan, ffa_bracket_plan, plan_trees, tree_bracket_plan, PlannedBracket, TreeSpec};

/// The tree layout computed with the floating-point formulas of the
/// service's first implementation, for comparison.
fn float_tree(teams: &[u128], no_teams: usize) -> Vec<PlannedBracket> {
    let mut out = Vec::new();
    if no_teams == 0 {
        return out;
    }
    let no_layers = (no_teams as f32).log2();
    let base_no_layers = if no_teams != 1 { no_layers.floor() as u32 } else { 1 };
    let no_stickout = no_teams.saturating_sub(2usize.pow(base_no_layers));
    let mut it = teams.iter();
    let meet_point_pos = (no_stickout as f32 / 2.0).round() - 1.0;
    let mut insert = |layer: u32, position: usize, out: &mut Vec<PlannedBracket>| {
        let team2 = it.next().copied();
        let team1 = it.next().copied();
        let winner = match (team1, team2) {
            (Some(_), Some(_)) => None,
            (Some(_), None) | (None, Some(_))
                if (meet_point_pos - position as f32).abs() <= f32::EPSILON =>
            {
                None
            }
            (Some(_), None) => Some(true),
            (None, Some(_)) => Some(false),
            (None, None) => None,
        };
        out.push(PlannedBracket { layer, position, team1, team2, winner });
    };
    for position in 0..no_stickout {
        insert(base_no_layers, position, &mut out);
    }
    for layer in (0..base_no_layers).rev() {
        for position in (0..2usize.pow(layer)).rev() {
            insert(layer, position, &mut out);
        }
    }
    out
}

fn seeds(n: usize) -> Vec<u128> {
    (0..n as u128).map(|i| 1000 + i).collect()
}

#[test]
fn tree_plan_matches_float_layout() {
    for n in 0..300usize {
        let teams = seeds(n);
        assert_eq!(tree_bracket_plan(&teams, n), float_tree(&teams, n), "seeded, n = {n}");
        assert_eq!(tree_bracket_plan(&[], n), float_tree(&[], n), "unseeded, n = {n}");
    }
}

#[test]
fn tree_plan_five_teams() {
    let teams = seeds(5);
    let plan = tree_bracket_plan(&teams, 5);
    // one stick-out bracket on layer 2, then layer 1 right to left, then the final
    assert_eq!(plan.len(), 4);
    assert_eq!(
        plan[0],
        PlannedBracket { layer: 2, position: 0, team1: Some(1001), team2: Some(1000), winner: None }
    );
    assert_eq!(
        plan[1],
        PlannedBracket { layer: 1, position: 1, team1: Some(1003), team2: Some(1002), winner: None }
    );
    // the bye next to the stick-out bracket waits for its winner
    assert_eq!(
        plan[2],
        PlannedBracket { layer: 1, position: 0, team1: None, team2: Some(1004), winner: None }
    );
    assert_eq!(
        plan[3],
        PlannedBracket { layer: 0, position: 0, team1: None, team2: None, winner: None }
    );
}

#[test]
fn tree_plan_bye_records_winner() {
    let teams = seeds(6);
    let plan = tree_bracket_plan(&teams, 6);
    // 6 teams: two stick-out brackets; the meet point is position 0 of layer 2
    assert_eq!(plan.len(), 5);
    assert_eq!(plan[2].layer, 1);
    assert_eq!(plan[2].position, 1);
    assert_eq!(plan[2].team2, Some(1004));
    assert_eq!(plan[2].team1, Some(1005));
    let single = tree_bracket_plan(&seeds(1), 1);
    assert_eq!(
        single,
        vec![PlannedBracket { layer: 0, position: 0, team1: None, team2: Some(1000), winner: Some(false) }]
    );
}

#[test]
fn tree_plan_counts() {
    for n in 2..200usize {
        assert_eq!(tree_bracket_plan(&[], n).len(), n - 1);
    }
    assert_eq!(tree_bracket_plan(&[], 1).len(), 1);
    assert_eq!(tree_bracket_plan(&[], 0).len(), 0);
}

fn float_ffa(teams: &[u128]) -> Vec<PlannedBracket> {
    let size = teams.len() * (teams.len() - 1) / 2;
    let mut team1: Vec<u128> = Vec::with_capacity(size);
    let mut team2: Vec<u128> = Vec::with_capacity(size);
    for (i, team) in teams.iter().enumerate().take(teams.len() - 1) {
        team1.extend(std::iter::repeat(team).take(teams.len() - i - 1));
        team2.extend(teams.iter().skip(i + 1));
    }
    (0..size)
        .map(|k| PlannedBracket {
            layer: 0,
            position: k,
            team1: Some(team1[k]),
            team2: Some(team2[k]),
            winner: None,
        })
        .collect()
}

#[test]
fn ffa_plan_matches_pairing_loop() {
    for n in 1..40usize {
        let teams = seeds(n);
        assert_eq!(ffa_bracket_plan(&teams), float_ffa(&teams), "n = {n}");
    }
}

#[test]
fn ffa_round_robin_every_pair_once() {
    let teams = seeds(7);
    let plan = ffa_bracket_plan(&teams);
    assert_eq!(plan.len(), 21);
    for i in 0..7 {
        for j in (i + 1)..7 {
            let hits = plan
                .iter()
                .filter(|b| b.team1 == Some(teams[i]) && b.team2 == Some(teams[j]))
                .count();
            assert_eq!(hits, 1);
        }
    }
    assert_eq!(ffa_bracket_plan(&seeds(1)).len(), 0);
    assert_eq!(
        ffa_bracket_plan(&[5, 6, 7]),
        vec![
            PlannedBracket { layer: 0, position: 0, team1: Some(5), team2: Some(6), winner: None },
            PlannedBracket { layer: 0, position: 1, team1: Some(5), team2: Some(7), winner: None },
            PlannedBracket { layer: 0, position: 2, team1: Some(6), team2: Some(7), winner: None },
        ]
    );
}

/// The trees chosen with the floating-point formulas of the first
/// implementation (tree 0 seeded, later trees unseeded; trees for no team
/// are skipped).
fn float_trees(tt: TournamentType, n: usize, places: u32) -> Vec<TreeSpec> {
    let mut out = Vec::new();
    let mut push = |position: i64, no_teams: usize, seeded: bool| {
        if no_teams > 0 {
            out.push(TreeSpec { position, no_teams, seeded });
        }
    };
    match tt {
        TournamentType::FFA => out.push(TreeSpec { position: -1, no_teams: n, seeded: true }),
        TournamentType::OneBracketOneFinalPositions => {
            push(0, n, true);
            let max_num_final_places = n - 1;
            for position in 1..(places as usize).min(max_num_final_places) {
                push(position as i64, n - position, false);
            }
        }
        TournamentType::OneBracketTwoFinalPositions => {
            push(0, n, true);
            let max_num_trees = (n as f32 / 2.0).ceil() as usize;
            let num_trees = (places as f32 / 2.0).ceil() as usize;
            for position in 1..num_trees.min(max_num_trees) {
                push(position as i64, n - position * 2, false);
            }
        }
    }
    out
}

#[test]
fn plan_trees_matches_float_choice() {
    for n in 0..60usize {
        for places in 1..20u32 {
            for tt in [
                TournamentType::FFA,
                TournamentType::OneBracketOneFinalPositions,
                TournamentType::OneBracketTwoFinalPositions,
            ] {
                if n == 0 && tt != TournamentType::OneBracketTwoFinalPositions {
                    continue;
                }
                assert_eq!(plan_trees(tt, n, places), float_trees(tt, n, places), "{tt:?} n={n} places={places}");
            }
        }
    }
}

#[test]
fn plan_trees_examples() {
    assert_eq!(
        plan_trees(TournamentType::OneBracketOneFinalPositions, 8, 3),
        vec![
            TreeSpec { position: 0, no_teams: 8, seeded: true },
            TreeSpec { position: 1, no_teams: 7, seeded: false },
            TreeSpec { position: 2, no_teams: 6, seeded: false },
        ]
    );
    assert_eq!(
        plan_trees(TournamentType::OneBracketTwoFinalPositions, 8, 5),
        vec![
            TreeSpec { position: 0, no_teams: 8, seeded: true },
            TreeSpec { position: 1, no_teams: 6, seeded: false },
            TreeSpec { position: 2, no_teams: 4, seeded: false },
        ]
    );
    assert_eq!(plan_trees(TournamentType::OneBracketTwoFinalPositions, 0, 3), vec![]);
    assert_eq!(
        plan_trees(TournamentType::FFA, 4, 3),
        vec![TreeSpec { position: -1, no_teams: 4, seeded: true }]
    );
}

#[test]
fn generation_plan_combines_trees_and_brackets() {
    let teams = seeds(6);
    let plan = bracket_generation_plan(TournamentType::OneBracketOneFinalPositions, &teams, 3);
    assert_eq!(plan.len(), 3);
    assert_eq!(plan[0].spec, TreeSpec { position: 0, no_teams: 6, seeded: true });
    assert_eq!(plan[0].brackets, tree_bracket_plan(&teams, 6));
    assert_eq!(plan[1].spec, TreeSpec { position: 1, no_teams: 5, seeded: false });
    assert_eq!(plan[1].brackets, tree_bracket_plan(&[], 5));
    assert_eq!(plan[2].brackets, tree_bracket_plan(&[], 4));
    let ffa = bracket_generation_plan(TournamentType::FFA, &teams, 3);
    assert_eq!(ffa.len(), 1);
    assert_eq!(ffa[0].spec.position, -1);
    assert_eq!(ffa[0].brackets, ffa_bracket_plan(&teams));
    assert!(bracket_generation_plan(TournamentType::OneBracketTwoFinalPositions, &[], 3).is_empty());
}

#[test]
fn tree_places_are_distinct_and_parents_exist() {
    for n in 1..150usize {
        let plan = tree_bracket_plan(&seeds(n), n);
        let mut places: Vec<(u32, usize)> = plan.iter().map(|b| (b.layer, b.position)).collect();
        places.sort();
        places.dedup();
        assert_eq!(places.len(), plan.len(), "n = {n}");
        for b in &plan {
            if b.layer >= 1 {
                assert!(plan.iter().any(|p| p.layer == b.layer - 1 && p.position == b.position / 2), "n = {n}");
            }
        }
    }
}

#[test]
fn every_team_is_seeded_once() {
    for n in 1..150usize {
        let teams = seeds(n);
        let plan = tree_bracket_plan(&teams, n);
        for t in &teams {
            let hits = plan
                .iter()
                .filter(|b| b.team1 == Some(*t) || b.team2 == Some(*t))
                .count();
            assert_eq!(hits, 1, "n = {n}");
        }
    }
}
