use net::player::{Object, Player, PLAYER_GLYPH};
use net::snapshot::inform_world;
use net::tile_map::TileMap;
use net::world::{World, SPAWN_X, SPAWN_Y};

#[test]
fn tile_map_reads_row_by_row() {
    let m = TileMap::from(3, 2, vec![0, 1, 2, 3, 4, 5]);
    assert_eq!(m.width(), 3);
    assert_eq!(m.height(), 2);
    assert_eq!(m.data(), &vec![0, 1, 2, 3, 4, 5]);
    assert_eq!(m.block(0, 0), 0);
    assert_eq!(m.block(2, 0), 2);
    assert_eq!(m.block(0, 1), 3);
    assert_eq!(m.block(2, 1), 5);
}

#[test]
fn player_colour_comes_from_identity_bytes() {
    let p = Player::new(0, 5, -6);
    assert_eq!(p.id(), 0);
    assert_eq!(p.glyph(), '@');
    assert_eq!(p.color(), (64, 64, 64));
    assert_eq!(*p.object(), Object { x: 5, y: -6 });
    let q = Player::new(0x0000_0000_00C0_0201, 0, 0);
    assert_eq!(q.color(), (65, 66, 255));
    let r = Player::new(0xFFFF_FFFF_00BF_C100, 0, 0);
    assert_eq!(r.color(), (64, 255, 255));
}

#[test]
fn player_moves_in_place() {
    let mut p = Player::new(9, 1, 1);
    p.object_mut().x += 1;
    p.object_mut().y -= 1;
    assert_eq!(*p.object(), Object::new(2, 0));
    assert_eq!(p.id(), 9);
}

#[test]
fn world_adds_players_at_spawn() {
    let mut w = World::new(TileMap::from(2, 2, vec![3, 3, 3, 0]));
    assert!(w.players().is_empty());
    w.add_player(11);
    w.add_player(12);
    let ids: Vec<u64> = w.players().iter().map(|p| p.id()).collect();
    assert_eq!(ids, vec![11, 12]);
    assert_eq!(*w.players()[1].object(), Object { x: SPAWN_X, y: SPAWN_Y });
    assert_eq!(w.players()[1].glyph(), PLAYER_GLYPH);
    assert_eq!(w.map().block(1, 1), 0);
}

#[test]
fn world_removes_the_first_player_with_the_identity() {
    let mut w = World::new(TileMap::from(1, 1, vec![0]));
    w.add_player(1);
    w.add_player(2);
    w.add_player(1);
    w.remove_player(1);
    let ids: Vec<u64> = w.players().iter().map(|p| p.id()).collect();
    assert_eq!(ids, vec![2, 1]);
    w.remove_player(7);
    assert_eq!(w.players().len(), 2);
}

fn record(id: u64, x: i32, y: i32, color: (u8, u8, u8)) -> Vec<u8> {
    let mut r = Vec::new();
    r.extend_from_slice(&id.to_le_bytes());
    r.extend_from_slice(&[0x40, 0, 0, 0, 1, color.0, color.1, color.2]);
    r.extend_from_slice(&x.to_le_bytes());
    r.extend_from_slice(&y.to_le_bytes());
    r
}

#[test]
fn world_frame_for_one_player() {
    let players = vec![Player::new(1, 1, 1)];
    let b = inform_world(2, 1, &vec![7, 8], &players).unwrap();
    let mut expected = vec![0x00, 0x01, 0x00, 38, 2, 0, 0, 0, 1, 0, 0, 0, 7, 8, 1, 0, 0, 0];
    expected.extend(record(1, 1, 1, (65, 64, 64)));
    assert_eq!(b.as_ref(), expected.as_slice());
}

#[test]
fn world_frame_lists_the_newest_player_first() {
    let players = vec![Player::new(1, 1, 1), Player::new(2, 3, -1), Player::new(3, 0, 4)];
    let b = inform_world(0, 0, &vec![], &players).unwrap();
    let mut expected = vec![0x00, 0x01, 0x00, 12 + 72, 0, 0, 0, 0, 0, 0, 0, 0, 3, 0, 0, 0];
    expected.extend(record(3, 0, 4, (67, 64, 64)));
    expected.extend(record(1, 1, 1, (65, 64, 64)));
    expected.extend(record(2, 3, -1, (66, 64, 64)));
    assert_eq!(b.as_ref(), expected.as_slice());
}

#[test]
fn world_frame_without_players() {
    let b = inform_world(1, 1, &vec![9], &vec![]).unwrap();
    assert_eq!(b.as_ref(), &[0, 1, 0, 13, 1, 0, 0, 0, 1, 0, 0, 0, 9, 0, 0, 0, 0]);
}

#[test]
fn world_frame_too_large_for_a_header() {
    assert!(inform_world(1, 1, &vec![0; 65535 - 12], &vec![]).is_some());
    assert!(inform_world(1, 1, &vec![0; 65535 - 11], &vec![]).is_none());
    assert!(inform_world(1, 1, &vec![0; 65535 - 12], &vec![Player::new(1, 0, 0)]).is_none());
}

#[test]
fn player_income_frame_holds_the_record() {
    let p = Player::new(0x0102, -3, 7);
    let b = net::snapshot::player_income(&p);
    let mut expected = vec![0x00, 0x02, 0x00, 24];
    expected.extend(record(0x0102, -3, 7, (66, 65, 64)));
    assert_eq!(b.as_ref(), expected.as_slice());
}

#[test]
fn player_exit_frame_holds_the_identity() {
    let b = net::snapshot::player_exit(0x0807060504030201);
    assert_eq!(b.as_ref(), &[0x00, 0x03, 0x00, 0x08, 1, 2, 3, 4, 5, 6, 7, 8]);
}

#[test]
fn player_move_frame_holds_identity_and_direction() {
    let b = net::snapshot::player_move(5, 3);
    assert_eq!(b.as_ref(), &[0x00, 0x04, 0x00, 0x09, 5, 0, 0, 0, 0, 0, 0, 0, 3]);
}
