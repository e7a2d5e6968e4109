use hunger_games::item::Item;
use hunger_games::player::Player;
use hunger_games::pronouns::Pronouns;
use hunger_games::scenario::{arity_two, Scenario, ScenarioKind};
use hunger_games::simulator::{
    get_available_players, get_scenario, reset_players, simulate_game, simulate_round,
    GameOutcome,
};
use hunger_games::status::{AliveStatus, Status};

fn named(name: &str, pronouns: Pronouns) -> Player {
    Player::new(String::from(name), pronouns, 1)
}

fn always(kind: ScenarioKind) -> Scenario {
    Scenario { kind, possible_after: 0, impossible_after: usize::MAX }
}

#[test]
fn stock_arity_two_bucket() {
    let bucket = arity_two::get();
    assert_eq!(bucket.len(), 5);
    assert_eq!(bucket[0].kind, ScenarioKind::CaughtOffGuard);
    assert_eq!(bucket[1].kind, ScenarioKind::Fistfight);
    assert_eq!(bucket[2].kind, ScenarioKind::TendWounds);
    assert_eq!(bucket[3].kind, ScenarioKind::MutualPoison);
    assert_eq!(bucket[4].kind, ScenarioKind::KnifeThrow);
    for s in &bucket {
        assert_eq!(s.possible_after, 0);
        assert_eq!(s.impossible_after, usize::MAX);
        assert_eq!(s.bucket(), 1);
    }
}

#[test]
fn available_players_skips_dead_and_moved() {
    let mut players = vec![named("A", Pronouns::Enby), named("B", Pronouns::Enby),
        named("C", Pronouns::Enby), named("D", Pronouns::Enby)];
    players[1].kill();
    players[2].moved = true;
    assert_eq!(get_available_players(&players, 0), vec![0, 3]);
    assert_eq!(get_available_players(&players, 1), vec![3]);
    assert_eq!(get_available_players(&players, 4), Vec::<usize>::new());
}

#[test]
fn available_players_monotonic_in_start() {
    let mut players = vec![named("A", Pronouns::Enby), named("B", Pronouns::Enby),
        named("C", Pronouns::Enby), named("D", Pronouns::Enby)];
    players[2].kill();
    let from_zero = get_available_players(&players, 0);
    for k in 0..players.len() {
        let from_k = get_available_players(&players, k);
        let expected: Vec<usize> = from_zero.iter().copied().filter(|&j| j >= k).collect();
        assert_eq!(from_k, expected);
    }
}

#[test]
fn caught_off_guard_kills_the_second() {
    let players_init = vec![named("A", Pronouns::Female), named("B", Pronouns::Male)];
    let mut players = players_init;
    let s = always(ScenarioKind::CaughtOffGuard);
    let indices = vec![0usize, 1usize];
    let line = s.run(&mut players, &indices, 1);
    assert_eq!(players[0].status, Status::Alive(AliveStatus::Healthy));
    assert_eq!(players[0].kills, 1);
    assert_eq!(players[1].status, Status::Dead);
    assert_eq!(line, "A caught B off guard and killed him.");
}

#[test]
fn fistfight_hurts_both() {
    let mut players = vec![named("A", Pronouns::Enby), named("B", Pronouns::Enby)];
    players[1].hurt();
    let s = always(ScenarioKind::Fistfight);
    let line = s.run(&mut players, &vec![0, 1], 1);
    assert_eq!(players[0].status, Status::Alive(AliveStatus::Injured));
    assert_eq!(players[1].status, Status::Dead);
    assert_eq!(line, "A got into a fistfight with B.");
}

#[test]
fn tend_wounds_heals_the_second() {
    let mut players = vec![named("A", Pronouns::Enby), named("B", Pronouns::Enby)];
    players[1].hurt();
    let s = always(ScenarioKind::TendWounds);
    assert!(s.condition(&players, &vec![0, 1]));
    let line = s.run(&mut players, &vec![0, 1], 1);
    assert_eq!(players[1].status, Status::Alive(AliveStatus::Healthy));
    assert_eq!(line, "A tended to B's wounds.");
}

#[test]
fn tend_wounds_needs_an_injured_second() {
    let players = vec![named("A", Pronouns::Enby), named("B", Pronouns::Enby)];
    let s = always(ScenarioKind::TendWounds);
    assert!(!s.condition(&players, &vec![0, 1]));
}

#[test]
fn mutual_poison_kills_and_credits_both() {
    let mut players = vec![named("A", Pronouns::Enby), named("B", Pronouns::Enby)];
    let s = always(ScenarioKind::MutualPoison);
    let line = s.run(&mut players, &vec![0, 1], 1);
    assert_eq!(players[0].status, Status::Dead);
    assert_eq!(players[1].status, Status::Dead);
    assert_eq!(players[0].kills, 1);
    assert_eq!(players[1].kills, 1);
    assert_eq!(line, "A and B poisoned eachother.");
}

#[test]
fn knife_throw_spends_the_knife() {
    let mut players = vec![named("A", Pronouns::Enby), named("B", Pronouns::Enby)];
    players[0].inventory.push(Item::Knife);
    let s = always(ScenarioKind::KnifeThrow);
    assert!(s.condition(&players, &vec![0, 1]));
    let line = s.run(&mut players, &vec![0, 1], 1);
    assert!(players[0].inventory.is_empty());
    assert_eq!(players[0].kills, 1);
    assert_eq!(players[1].status, Status::Dead);
    assert_eq!(line, "A hit B with a long distance knife throw.");
}

#[test]
fn knife_throw_needs_a_knife() {
    let players = vec![named("A", Pronouns::Enby), named("B", Pronouns::Enby)];
    let s = always(ScenarioKind::KnifeThrow);
    assert!(!s.condition(&players, &vec![0, 1]));
}

#[test]
fn selector_picks_the_only_eligible_scenario() {
    let players = vec![named("A", Pronouns::Enby)];
    let catalog = vec![vec![always(ScenarioKind::Idle)]];
    let mut rng = rand::rng();
    let picked = get_scenario(&catalog, &mut rng, &players, &vec![0], 0);
    let (s, arity) = picked.expect("an always-eligible bucket must yield a pick");
    assert_eq!(s.kind, ScenarioKind::Idle);
    assert_eq!(arity, 0);
}

#[test]
fn selector_respects_the_round_window() {
    let players = vec![named("A", Pronouns::Enby)];
    let late = Scenario { kind: ScenarioKind::Idle, possible_after: 5, impossible_after: 6 };
    let catalog = vec![vec![late]];
    let mut rng = rand::rng();
    assert!(get_scenario(&catalog, &mut rng, &players, &vec![0], 0).is_none());
    assert!(get_scenario(&catalog, &mut rng, &players, &vec![0], 5).is_some());
    assert!(get_scenario(&catalog, &mut rng, &players, &vec![0], 6).is_none());
}

#[test]
fn heal_round_heals_the_injured_actor() {
    let mut players = vec![named("A", Pronouns::Enby)];
    players[0].hurt();
    let catalog = vec![vec![always(ScenarioKind::HealSelf)]];
    let mut rng = rand::rng();
    let (narration, over) = simulate_round(&mut players, &catalog, &mut rng, 0)
        .expect("selection must succeed");
    assert_eq!(players[0].status, Status::Alive(AliveStatus::Healthy));
    assert!(over, "a single survivor ends the game");
    assert_eq!(narration, "A tended to their own wounds.\nA won.");
}

#[test]
fn noop_round_narrates_one_line_per_actor() {
    let mut players = vec![named("A", Pronouns::Enby), named("B", Pronouns::Enby),
        named("C", Pronouns::Enby)];
    let catalog = vec![vec![always(ScenarioKind::Idle)]];
    let mut rng = rand::rng();
    let (narration, over) = simulate_round(&mut players, &catalog, &mut rng, 0)
        .expect("selection must succeed");
    assert!(!over, "three survivors keep the game going");
    let lines: Vec<&str> = narration.split('\n').collect();
    assert_eq!(lines.len(), 3);
    for line in lines {
        assert!(line.ends_with(" wandered around aimlessly."));
    }
    assert!(!narration.contains("won."));
    for p in &players {
        assert!(!p.moved, "the round must clear every moved flag");
        assert_eq!(p.status, Status::Alive(AliveStatus::Healthy));
    }
}

#[test]
fn round_keeps_the_dead_dead() {
    let mut players = vec![named("A", Pronouns::Enby), named("B", Pronouns::Enby),
        named("C", Pronouns::Enby)];
    players[1].kill();
    let catalog = vec![vec![always(ScenarioKind::Idle)]];
    let mut rng = rand::rng();
    let result = simulate_round(&mut players, &catalog, &mut rng, 3);
    assert!(result.is_some());
    assert_eq!(players[1].status, Status::Dead);
    assert_eq!(players[1].name, "B");
}

#[test]
fn round_with_no_survivors_reports_a_draw_line() {
    let mut players = vec![named("A", Pronouns::Enby), named("B", Pronouns::Enby)];
    let catalog = vec![vec![always(ScenarioKind::Idle)], vec![always(ScenarioKind::MutualPoison)]];
    let mut rng = rand::rng();
    loop {
        let (narration, over) = simulate_round(&mut players, &catalog, &mut rng, 0)
            .expect("selection must succeed");
        if over {
            assert!(narration.ends_with("Nobody won."));
            assert_eq!(players[0].status, Status::Dead);
            assert_eq!(players[1].status, Status::Dead);
            break;
        }
    }
}

#[test]
fn round_reports_a_configuration_error_when_nothing_is_eligible() {
    let mut players = vec![named("A", Pronouns::Enby)];
    // The only scenario demands an injured actor; the actor is healthy.
    let catalog = vec![vec![always(ScenarioKind::HealSelf)]];
    let mut rng = rand::rng();
    assert!(simulate_round(&mut players, &catalog, &mut rng, 0).is_none());
    assert!(!players[0].moved);
}

#[test]
fn reset_is_idempotent() {
    let mut players = vec![named("A", Pronouns::Enby), named("B", Pronouns::Enby),
        named("C", Pronouns::Enby)];
    players[0].kill();
    players[1].hurt();
    players[1].moved = true;
    players[2].kills = 4;
    reset_players(&mut players);
    let once: Vec<(String, Status, bool, u64)> = players
        .iter()
        .map(|p| (p.name.clone(), p.status, p.moved, p.kills))
        .collect();
    reset_players(&mut players);
    let twice: Vec<(String, Status, bool, u64)> = players
        .iter()
        .map(|p| (p.name.clone(), p.status, p.moved, p.kills))
        .collect();
    assert_eq!(once, twice);
    assert_eq!(players[0].status, Status::Alive(AliveStatus::Healthy));
    assert!(!players[1].moved);
    assert_eq!(players[2].kills, 4, "reset keeps kill counts");
}

#[test]
fn game_of_mutual_poison_ends_in_a_draw() {
    let mut players = vec![named("A", Pronouns::Enby), named("B", Pronouns::Enby)];
    let catalog = vec![vec![always(ScenarioKind::Idle)], vec![always(ScenarioKind::MutualPoison)]];
    let mut rng = rand::rng();
    let (rounds, outcome) = simulate_game(&mut players, &catalog, &catalog, &mut rng);
    assert_eq!(outcome, GameOutcome::Draw);
    assert!(!rounds.is_empty());
}

#[test]
fn game_of_ambushes_crowns_a_winner() {
    let mut players = vec![named("A", Pronouns::Enby), named("B", Pronouns::Enby),
        named("C", Pronouns::Enby)];
    let catalog = vec![vec![always(ScenarioKind::Idle)],
        vec![always(ScenarioKind::CaughtOffGuard)]];
    let mut rng = rand::rng();
    let (_rounds, outcome) = simulate_game(&mut players, &catalog, &catalog, &mut rng);
    match outcome {
        GameOutcome::Winner(name) => {
            let survivors: Vec<&Player> = players
                .iter()
                .filter(|p| p.status != Status::Dead)
                .collect();
            assert_eq!(survivors.len(), 1);
            assert_eq!(survivors[0].name, name);
        }
        other => panic!("expected a winner, got {:?}", other),
    }
}

#[test]
fn game_with_a_lone_player_is_decided_without_a_round() {
    let mut players = vec![named("A", Pronouns::Enby)];
    let catalog = vec![vec![always(ScenarioKind::Idle)]];
    let mut rng = rand::rng();
    let (rounds, outcome) = simulate_game(&mut players, &catalog, &catalog, &mut rng);
    assert_eq!(outcome, GameOutcome::Winner(String::from("A")));
    assert!(rounds.is_empty());
}

#[test]
fn game_with_nobody_is_a_draw() {
    let mut players: Vec<Player> = Vec::new();
    let catalog = vec![vec![always(ScenarioKind::Idle)]];
    let mut rng = rand::rng();
    let (rounds, outcome) = simulate_game(&mut players, &catalog, &catalog, &mut rng);
    assert_eq!(outcome, GameOutcome::Draw);
    assert!(rounds.is_empty());
}

#[test]
fn game_reports_a_configuration_error_for_an_unservable_catalog() {
    let mut players = vec![named("A", Pronouns::Enby), named("B", Pronouns::Enby)];
    // Both players are healthy, so the only scenario is never eligible.
    let catalog = vec![vec![always(ScenarioKind::HealSelf)]];
    let mut rng = rand::rng();
    let (_rounds, outcome) = simulate_game(&mut players, &catalog, &catalog, &mut rng);
    assert_eq!(outcome, GameOutcome::ConfigurationError);
}

#[test]
fn game_keeps_every_player_in_the_population() {
    let mut players = vec![named("A", Pronouns::Enby), named("B", Pronouns::Enby),
        named("C", Pronouns::Enby)];
    let catalog = vec![vec![always(ScenarioKind::Idle)],
        vec![always(ScenarioKind::CaughtOffGuard)]];
    let mut rng = rand::rng();
    let _ = simulate_game(&mut players, &catalog, &catalog, &mut rng);
    assert_eq!(players.len(), 3);
    let mut names: Vec<&str> = players.iter().map(|p| p.name.as_str()).collect();
    names.sort();
    assert_eq!(names, vec!["A", "B", "C"]);
}
