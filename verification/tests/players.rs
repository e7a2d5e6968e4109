use hunger_games::item::Item;
use hunger_games::player::{JsonPlayer, Player};
use hunger_games::pronouns::Pronouns;
use hunger_games::status::{AliveStatus, Status};

fn fresh(name: &str) -> Player {
    Player::new(String::from(name), Pronouns::Enby, 1)
}

#[test]
fn new_player_starts_healthy() {
    let p = Player::new(String::from("Ada"), Pronouns::Female, 3);
    assert_eq!(p.name, "Ada");
    assert_eq!(p.status, Status::Alive(AliveStatus::Healthy));
    assert_eq!(p.pronouns, Pronouns::Female);
    assert!(!p.moved);
    assert_eq!(p.district, 3);
    assert_eq!(p.kills, 0);
    assert!(p.inventory.is_empty());
}

#[test]
fn kill_marks_dead() {
    let mut p = fresh("Ada");
    p.kill();
    assert_eq!(p.status, Status::Dead);
}

#[test]
fn hurt_injures_healthy() {
    let mut p = fresh("Ada");
    p.hurt();
    assert_eq!(p.status, Status::Alive(AliveStatus::Injured));
}

#[test]
fn hurt_kills_injured() {
    let mut p = fresh("Ada");
    p.hurt();
    p.hurt();
    assert_eq!(p.status, Status::Dead);
}

#[test]
fn hurt_keeps_dead_dead() {
    let mut p = fresh("Ada");
    p.kill();
    p.hurt();
    assert_eq!(p.status, Status::Dead);
}

#[test]
fn heal_restores_health() {
    let mut p = fresh("Ada");
    p.hurt();
    p.heal();
    assert_eq!(p.status, Status::Alive(AliveStatus::Healthy));
}

#[test]
fn add_kill_increments() {
    let mut p = fresh("Ada");
    p.add_kill();
    p.add_kill();
    assert_eq!(p.kills, 2);
}

#[test]
fn add_kill_saturates() {
    let mut p = fresh("Ada");
    p.kills = u64::MAX;
    p.add_kill();
    assert_eq!(p.kills, u64::MAX);
}

#[test]
fn get_item_finds_first_knife() {
    let mut p = fresh("Ada");
    p.inventory.push(Item::Knife);
    p.inventory.push(Item::Knife);
    assert_eq!(p.get_item(&Item::Knife), Some(0));
}

#[test]
fn get_item_reports_missing_knife() {
    let p = fresh("Ada");
    assert_eq!(p.get_item(&Item::Knife), None);
}

#[test]
fn from_folds_gender_case() {
    let j = JsonPlayer { name: String::from("Bea"), gender: String::from("MaLe"), district: 7 };
    let p = Player::from(&j);
    assert_eq!(p.pronouns, Pronouns::Male);
    assert_eq!(p.name, "Bea");
    assert_eq!(p.district, 7);
    assert_eq!(p.status, Status::Alive(AliveStatus::Healthy));
}

#[test]
fn from_defaults_unknown_gender_to_enby() {
    let j = JsonPlayer { name: String::from("Bea"), gender: String::from("dragon"), district: 7 };
    let p = Player::from(&j);
    assert_eq!(p.pronouns, Pronouns::Enby);
}

#[test]
fn from_owned_matches_exact_spellings() {
    let j = JsonPlayer { name: String::from("Cyn"), gender: String::from("FEMALE"), district: 2 };
    let p = Player::from_owned(j);
    assert_eq!(p.pronouns, Pronouns::Female);
    let j = JsonPlayer { name: String::from("Dee"), gender: String::from("FeMale"), district: 2 };
    let p = Player::from_owned(j);
    assert_eq!(p.pronouns, Pronouns::Enby);
}

#[test]
fn pronoun_objects() {
    assert_eq!(Pronouns::Male.object(), "him");
    assert_eq!(Pronouns::Female.object(), "her");
    assert_eq!(Pronouns::Enby.object(), "them");
}
