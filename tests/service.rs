use game_topup::{
    find_first, Entity, Error, GamePayload, IdGenerator, Invalid, Service, Status, TopUpPayload,
};

fn game_payload(name: &str, nominal: Vec<u64>, harga: Vec<u64>) -> GamePayload {
    GamePayload { name: String::from(name), nominal, harga }
}

fn topup_payload(game_id: u64, user_id: &str, nominal: u64) -> TopUpPayload {
    TopUpPayload { game_id, user_id: String::from(user_id), nominal }
}

#[test]
fn mobile_legends_scenario() {
    let mut s = Service::open().unwrap();
    let g = s
        .add_game(game_payload("Mobile Legends", vec![50, 100], vec![15000, 28000]))
        .unwrap();
    assert_eq!(g.id, 1);
    assert_eq!(g.name, "Mobile Legends");
    assert_eq!(g.nominal, vec![50, 100]);
    assert_eq!(g.harga, vec![15000, 28000]);

    let t = s.create_topup(topup_payload(1, "u1", 100), 1_700_000_000).unwrap();
    assert_eq!(t.id, 2);
    assert_eq!(t.game_id, 1);
    assert_eq!(t.user_id, "u1");
    assert_eq!(t.nominal, 100);
    assert_eq!(t.harga, 28000);
    assert_eq!(t.status, Status::Pending);
    assert_eq!(t.created_at, 1_700_000_000);

    let u = s.update_status(2, Status::Success).unwrap();
    assert_eq!(u.status, Status::Success);
    assert_eq!(u.id, t.id);
    assert_eq!(u.game_id, t.game_id);
    assert_eq!(u.user_id, t.user_id);
    assert_eq!(u.nominal, t.nominal);
    assert_eq!(u.harga, t.harga);
    assert_eq!(u.created_at, t.created_at);
    assert_eq!(s.get_topup(2).unwrap(), u);
}

#[test]
fn game_ids_strictly_increase() {
    let mut s = Service::open().unwrap();
    let a = s.add_game(game_payload("A", vec![1], vec![10])).unwrap();
    let t = s.create_topup(topup_payload(a.id, "u", 1), 0).unwrap();
    let b = s.add_game(game_payload("B", vec![], vec![])).unwrap();
    assert_eq!(a.id, 1);
    assert_eq!(t.id, 2);
    assert_eq!(b.id, 3);
    assert_eq!(s.last_id(), 3);
}

#[test]
fn add_game_length_mismatch_changes_nothing() {
    let mut s = Service::open().unwrap();
    let r = s.add_game(game_payload("X", vec![50, 100], vec![15000]));
    assert_eq!(
        r,
        Err(Error::InvalidInput {
            reason: Invalid::LengthMismatch { nominal_len: 2, harga_len: 1 }
        })
    );
    assert_eq!(s.last_id(), 0);
    assert!(s.get_all_games().is_empty());
    let g = s.add_game(game_payload("Y", vec![5], vec![7])).unwrap();
    assert_eq!(g.id, 1);
}

#[test]
fn add_game_accepts_empty_lists() {
    let mut s = Service::open().unwrap();
    let g = s.add_game(game_payload("Empty", vec![], vec![])).unwrap();
    assert!(g.nominal.is_empty());
    assert!(g.harga.is_empty());
    let r = s.create_topup(topup_payload(g.id, "u", 5), 0);
    assert_eq!(
        r,
        Err(Error::InvalidInput { reason: Invalid::NominalUnavailable { nominal: 5 } })
    );
}

#[test]
fn create_topup_unknown_game_is_not_found() {
    let mut s = Service::open().unwrap();
    s.add_game(game_payload("A", vec![1], vec![10])).unwrap();
    let r = s.create_topup(topup_payload(42, "u", 1), 0);
    assert_eq!(r, Err(Error::NotFound { entity: Entity::Game, id: 42 }));
    assert_eq!(s.last_id(), 1);
    assert_eq!(s.get_topup(2), Err(Error::NotFound { entity: Entity::TopUp, id: 2 }));
}

#[test]
fn create_topup_unknown_nominal_is_invalid() {
    let mut s = Service::open().unwrap();
    s.add_game(game_payload("A", vec![50, 100], vec![15000, 28000])).unwrap();
    let r = s.create_topup(topup_payload(1, "u", 75), 0);
    assert_eq!(
        r,
        Err(Error::InvalidInput { reason: Invalid::NominalUnavailable { nominal: 75 } })
    );
    assert_eq!(s.last_id(), 1);
}

#[test]
fn create_topup_takes_first_matching_price() {
    let mut s = Service::open().unwrap();
    s.add_game(game_payload("Dup", vec![10, 20, 10], vec![111, 222, 333])).unwrap();
    let t = s.create_topup(topup_payload(1, "u", 10), 5).unwrap();
    assert_eq!(t.harga, 111);
    let t = s.create_topup(topup_payload(1, "u", 20), 5).unwrap();
    assert_eq!(t.harga, 222);
}

#[test]
fn update_status_allows_any_transition() {
    let mut s = Service::open().unwrap();
    s.add_game(game_payload("A", vec![1], vec![10])).unwrap();
    s.create_topup(topup_payload(1, "u", 1), 9).unwrap();
    assert_eq!(s.update_status(2, Status::Success).unwrap().status, Status::Success);
    assert_eq!(s.update_status(2, Status::Pending).unwrap().status, Status::Pending);
    assert_eq!(s.update_status(2, Status::Failed).unwrap().status, Status::Failed);
    assert_eq!(s.get_topup(2).unwrap().status, Status::Failed);
    assert_eq!(s.get_topup(2).unwrap().created_at, 9);
    assert_eq!(s.last_id(), 2);
}

#[test]
fn update_status_unknown_is_not_found() {
    let mut s = Service::open().unwrap();
    s.add_game(game_payload("A", vec![1], vec![10])).unwrap();
    let t = s.create_topup(topup_payload(1, "u", 1), 0).unwrap();
    let r = s.update_status(1, Status::Success);
    assert_eq!(r, Err(Error::NotFound { entity: Entity::TopUp, id: 1 }));
    assert_eq!(s.get_topup(2).unwrap(), t);
}

#[test]
fn get_game_returns_inserted_game() {
    let mut s = Service::open().unwrap();
    let g = s.add_game(game_payload("A", vec![3, 4], vec![30, 40])).unwrap();
    assert_eq!(s.get_game(g.id).unwrap(), g);
    assert_eq!(s.get_game(7), Err(Error::NotFound { entity: Entity::Game, id: 7 }));
}

#[test]
fn get_all_games_in_storage_order() {
    let mut s = Service::open().unwrap();
    assert!(s.get_all_games().is_empty());
    let a = s.add_game(game_payload("A", vec![1], vec![10])).unwrap();
    s.create_topup(topup_payload(1, "u", 1), 0).unwrap();
    let b = s.add_game(game_payload("B", vec![2], vec![20])).unwrap();
    assert_eq!(s.get_all_games(), vec![a, b]);
}

#[test]
fn status_defaults_to_pending() {
    assert_eq!(Status::default(), Status::Pending);
}

#[test]
fn find_first_gives_first_position() {
    assert_eq!(find_first(&vec![4, 5, 4], 4), Some(0));
    assert_eq!(find_first(&vec![4, 5, 4], 5), Some(1));
    assert_eq!(find_first(&vec![4, 5, 4], 6), None);
    assert_eq!(find_first(&vec![], 6), None);
}

#[test]
fn id_generator_counts_from_one() {
    let mut ids = IdGenerator::open().unwrap();
    assert_eq!(ids.last(), 0);
    assert_eq!(ids.next(), Some(1));
    assert_eq!(ids.next(), Some(2));
    assert_eq!(ids.last(), 2);
}

#[test]
fn duplicate_copies_contents() {
    let mut s = Service::open().unwrap();
    let g = s.add_game(game_payload("A", vec![1, 2], vec![10, 20])).unwrap();
    assert_eq!(g.duplicate(), g);
    let t = s.create_topup(topup_payload(1, "u", 2), 3).unwrap();
    assert_eq!(t.duplicate(), t);
}
