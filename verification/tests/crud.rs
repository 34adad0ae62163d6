use pokemon_team::models::{CreatePokemon, UpdatePokemon};
use pokemon_team::store::Team;

fn create_req(name: &str, poke_type: &str, level: u32) -> CreatePokemon {
    CreatePokemon { name: name.to_string(), poke_type: poke_type.to_string(), level }
}

fn no_change() -> UpdatePokemon {
    UpdatePokemon { name: None, poke_type: None, level: None }
}

#[test]
fn empty_collection_lists_nothing() {
    let team = Team::new();
    assert_eq!(team.len(), 0);
    assert!(team.list_all().is_empty());
}

#[test]
fn first_record_gets_id_one() {
    let mut team = Team::new();
    let p = team.create(create_req("Pikachu", "Electric", 5));
    assert_eq!(p.id, 1);
    assert_eq!(p.name, "Pikachu");
    assert_eq!(p.poke_type, "Electric");
    assert_eq!(p.level, 5);
}

#[test]
fn ids_are_last_plus_one() {
    let mut team = Team::new();
    assert_eq!(team.create(create_req("a", "x", 1)).id, 1);
    assert_eq!(team.create(create_req("b", "y", 2)).id, 2);
    assert_eq!(team.create(create_req("c", "z", 3)).id, 3);
}

#[test]
fn id_after_deleting_last_is_reissued() {
    // The id rule is "last record's id + 1", not a maximum over issued ids:
    // after the last record goes away its id is handed out again.
    let mut team = Team::new();
    team.create(create_req("a", "x", 1));
    team.create(create_req("b", "y", 2));
    assert!(team.delete(2));
    let p = team.create(create_req("c", "z", 3));
    assert_eq!(p.id, 2);
}

#[test]
fn list_keeps_creation_order_across_updates() {
    let mut team = Team::new();
    team.create(create_req("a", "x", 1));
    team.create(create_req("b", "y", 2));
    team.create(create_req("c", "z", 3));
    let upd = UpdatePokemon { name: Some("B".to_string()), poke_type: None, level: Some(20) };
    assert!(team.update(2, upd).is_some());
    let all = team.list_all();
    let ids: Vec<u32> = all.iter().map(|p| p.id).collect();
    assert_eq!(ids, vec![1, 2, 3]);
    assert_eq!(all[1].name, "B");
}

#[test]
fn get_by_id_finds_current_version() {
    let mut team = Team::new();
    team.create(create_req("a", "x", 1));
    team.create(create_req("b", "y", 2));
    let got = team.get_by_id(2).expect("id 2 was created");
    assert_eq!(got.name, "b");
    let upd = UpdatePokemon { name: None, poke_type: None, level: Some(50) };
    team.update(2, upd);
    let again = team.get_by_id(2).expect("id 2 still there");
    assert_eq!(again.level, 50);
    assert_eq!(again.name, "b");
}

#[test]
fn get_by_id_missing_is_none() {
    let mut team = Team::new();
    assert!(team.get_by_id(1).is_none());
    team.create(create_req("a", "x", 1));
    assert!(team.get_by_id(7).is_none());
}

#[test]
fn update_with_all_fields_absent_is_noop() {
    let mut team = Team::new();
    team.create(create_req("Eevee", "Normal", 12));
    let before = team.list_all();
    let p = team.update(1, no_change()).expect("id 1 exists");
    assert_eq!(p.id, 1);
    assert_eq!(p.name, "Eevee");
    assert_eq!(p.poke_type, "Normal");
    assert_eq!(p.level, 12);
    let after = team.list_all();
    assert_eq!(before.len(), after.len());
    for (b, a) in before.iter().zip(after.iter()) {
        assert_eq!(b.id, a.id);
        assert_eq!(b.name, a.name);
        assert_eq!(b.poke_type, a.poke_type);
        assert_eq!(b.level, a.level);
    }
}

#[test]
fn update_with_level_only_changes_only_level() {
    let mut team = Team::new();
    team.create(create_req("Charmander", "Fire", 8));
    let upd = UpdatePokemon { name: None, poke_type: None, level: Some(9) };
    let p = team.update(1, upd).expect("id 1 exists");
    assert_eq!(p.level, 9);
    assert_eq!(p.name, "Charmander");
    assert_eq!(p.poke_type, "Fire");
    assert_eq!(p.id, 1);
}

#[test]
fn update_missing_id_is_none_and_changes_nothing() {
    let mut team = Team::new();
    team.create(create_req("a", "x", 1));
    let upd = UpdatePokemon { name: Some("zz".to_string()), poke_type: None, level: Some(99) };
    assert!(team.update(5, upd).is_none());
    let all = team.list_all();
    assert_eq!(all.len(), 1);
    assert_eq!(all[0].name, "a");
    assert_eq!(all[0].level, 1);
}

#[test]
fn delete_missing_id_leaves_collection_unchanged() {
    let mut team = Team::new();
    team.create(create_req("a", "x", 1));
    team.create(create_req("b", "y", 2));
    assert!(!team.delete(9));
    let all = team.list_all();
    assert_eq!(all.len(), 2);
    assert_eq!(all[0].name, "a");
    assert_eq!(all[1].name, "b");
}

#[test]
fn delete_existing_id_shrinks_by_one_and_forgets_it() {
    let mut team = Team::new();
    team.create(create_req("a", "x", 1));
    team.create(create_req("b", "y", 2));
    team.create(create_req("c", "z", 3));
    assert!(team.delete(2));
    assert_eq!(team.len(), 2);
    assert!(team.get_by_id(2).is_none());
    let ids: Vec<u32> = team.list_all().iter().map(|p| p.id).collect();
    assert_eq!(ids, vec![1, 3]);
}

#[test]
fn empty_strings_and_zero_level_are_accepted() {
    let mut team = Team::new();
    let p = team.create(create_req("", "", 0));
    assert_eq!(p.id, 1);
    assert_eq!(p.name, "");
    assert_eq!(p.poke_type, "");
    assert_eq!(p.level, 0);
}

#[test]
fn can_create_is_true_for_ordinary_collections() {
    let mut team = Team::new();
    assert!(team.can_create());
    team.create(create_req("a", "x", 1));
    assert!(team.can_create());
}

#[test]
fn full_crud_scenario() {
    let mut team = Team::new();

    let pikachu = team.create(create_req("Pikachu", "Electric", 5));
    assert_eq!(pikachu.id, 1);
    assert_eq!(pikachu.name, "Pikachu");
    assert_eq!(pikachu.poke_type, "Electric");
    assert_eq!(pikachu.level, 5);

    let bulbasaur = team.create(create_req("Bulbasaur", "Grass", 3));
    assert_eq!(bulbasaur.id, 2);

    let got = team.get_by_id(1).expect("Pikachu is there");
    assert_eq!(got.id, 1);
    assert_eq!(got.name, "Pikachu");
    assert_eq!(got.poke_type, "Electric");
    assert_eq!(got.level, 5);

    let upd = UpdatePokemon { name: None, poke_type: None, level: Some(10) };
    let updated = team.update(2, upd).expect("Bulbasaur is there");
    assert_eq!(updated.id, 2);
    assert_eq!(updated.name, "Bulbasaur");
    assert_eq!(updated.poke_type, "Grass");
    assert_eq!(updated.level, 10);

    assert!(team.delete(1));
    assert!(team.get_by_id(1).is_none());

    let all = team.list_all();
    assert_eq!(all.len(), 1);
    assert_eq!(all[0].id, 2);
    assert_eq!(all[0].name, "Bulbasaur");
    assert_eq!(all[0].poke_type, "Grass");
    assert_eq!(all[0].level, 10);
}
