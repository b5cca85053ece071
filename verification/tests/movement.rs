use roguelike::actors::Actor;
use roguelike::actors::ActorBundle;
use roguelike::actors::ActorKind;
use roguelike::map::MapPosition;
use roguelike::map::TileGrid;
use roguelike::movement::can_move;
use roguelike::movement::can_move_down;
use roguelike::movement::can_move_left;
use roguelike::movement::can_move_right;
use roguelike::movement::can_move_up;
use roguelike::movement::enumerate_reachable_positions;
use roguelike::movement::move_down;
use roguelike::movement::move_left;
use roguelike::movement::move_mob;
use roguelike::movement::move_randomly;
use roguelike::movement::move_right;
use roguelike::movement::move_to_player;
use roguelike::movement::move_toward;
use roguelike::movement::move_up;
use roguelike::movement::Direction;
use roguelike::tile::Tile;
use roguelike::tile::TileKind;

fn create_plain_map() -> TileGrid {
    TileGrid {
        width: 3,
        height: 3,
        tiles: vec![Tile::default(); 3 * 3],
        exits: vec![],
    }
}

fn create_stone_map() -> TileGrid {
    TileGrid {
        width: 3,
        height: 3,
        tiles: vec![
            Tile::default(),
            Tile::from_kind(TileKind::GrassWithStone),
            Tile::default(),
            Tile::from_kind(TileKind::GrassWithStone),
            Tile::default(),
            Tile::from_kind(TileKind::GrassWithStone),
            Tile::default(),
            Tile::from_kind(TileKind::GrassWithStone),
            Tile::default(),
        ],
        exits: vec![],
    }
}

fn create_open_map(width: usize, height: usize) -> TileGrid {
    TileGrid {
        width,
        height,
        tiles: vec![Tile::default(); width * height],
        exits: vec![],
    }
}

fn put(map: &mut TileGrid, kind: ActorKind, x: usize, y: usize) -> ActorBundle {
    let actor = Actor::new(kind);
    let index = y * map.width + x;
    map.tiles[index].actor = Some(actor);
    ActorBundle::new(actor, MapPosition::new(x, y))
}

fn manhattan(a: &MapPosition, b: &MapPosition) -> usize {
    a.x.abs_diff(b.x) + a.y.abs_diff(b.y)
}

const POSITION_MIDDLE_LEFT: MapPosition = MapPosition { x: 0, y: 1 };
const POSITION_MIDDLE: MapPosition = MapPosition { x: 1, y: 1 };
const POSITION_MIDDLE_RIGHT: MapPosition = MapPosition { x: 2, y: 1 };
const POSITION_TOP_LEFT: MapPosition = MapPosition { x: 0, y: 0 };
const POSITION_TOP_MIDDLE: MapPosition = MapPosition { x: 1, y: 0 };
const POSITION_TOP_RIGHT: MapPosition = MapPosition { x: 2, y: 0 };
const POSITION_BOTTOM_LEFT: MapPosition = MapPosition { x: 0, y: 2 };
const POSITION_BOTTOM_MIDDLE: MapPosition = MapPosition { x: 1, y: 2 };
const POSITION_BOTTOM_RIGHT: MapPosition = MapPosition { x: 2, y: 2 };

#[test]
fn test_can_move_left_without_actors() {
    let map_plain = create_plain_map();
    assert!(!can_move_left(&POSITION_TOP_LEFT, &map_plain, &[]));
    assert!(!can_move_left(&POSITION_BOTTOM_LEFT, &map_plain, &[]));
    assert!(can_move_left(&POSITION_TOP_RIGHT, &map_plain, &[]));
    assert!(can_move_left(&POSITION_BOTTOM_RIGHT, &map_plain, &[]));
    assert!(can_move_left(&POSITION_MIDDLE, &map_plain, &[]));

    let map_stone = create_stone_map();
    assert!(!can_move_left(&POSITION_TOP_LEFT, &map_stone, &[]));
    assert!(!can_move_left(&POSITION_TOP_RIGHT, &map_stone, &[]));
    assert!(!can_move_left(&POSITION_BOTTOM_LEFT, &map_stone, &[]));
    assert!(!can_move_left(&POSITION_BOTTOM_RIGHT, &map_stone, &[]));
    assert!(!can_move_left(&POSITION_MIDDLE, &map_stone, &[]));
}

#[test]
fn test_can_move_left_with_actors() {
    let map_plain = create_plain_map();
    let occupied = vec![POSITION_MIDDLE];

    assert!(!can_move_left(&POSITION_MIDDLE_RIGHT, &map_plain, &occupied));
    assert!(can_move_left(&POSITION_TOP_RIGHT, &map_plain, &occupied));
    assert!(can_move_left(&POSITION_BOTTOM_RIGHT, &map_plain, &occupied));
}

#[test]
fn test_can_move_right_without_actors() {
    let map_plain = create_plain_map();
    assert!(!can_move_right(&POSITION_TOP_RIGHT, &map_plain, &[]));
    assert!(!can_move_right(&POSITION_BOTTOM_RIGHT, &map_plain, &[]));
    assert!(can_move_right(&POSITION_TOP_LEFT, &map_plain, &[]));
    assert!(can_move_right(&POSITION_BOTTOM_LEFT, &map_plain, &[]));
    assert!(can_move_right(&POSITION_MIDDLE, &map_plain, &[]));

    let map_stone = create_stone_map();
    assert!(!can_move_right(&POSITION_TOP_LEFT, &map_stone, &[]));
    assert!(!can_move_right(&POSITION_TOP_RIGHT, &map_stone, &[]));
    assert!(!can_move_right(&POSITION_BOTTOM_LEFT, &map_stone, &[]));
    assert!(!can_move_right(&POSITION_BOTTOM_RIGHT, &map_stone, &[]));
    assert!(!can_move_right(&POSITION_MIDDLE, &map_stone, &[]));
}

#[test]
fn test_can_move_right_with_actors() {
    let map_plain = create_plain_map();
    let occupied = vec![POSITION_MIDDLE];

    assert!(!can_move_right(&POSITION_MIDDLE_LEFT, &map_plain, &occupied));
    assert!(can_move_right(&POSITION_TOP_LEFT, &map_plain, &occupied));
    assert!(can_move_right(&POSITION_BOTTOM_LEFT, &map_plain, &occupied));
}

#[test]
fn test_can_move_up_without_actors() {
    let map_plain = create_plain_map();
    assert!(!can_move_up(&POSITION_TOP_LEFT, &map_plain, &[]));
    assert!(!can_move_up(&POSITION_TOP_RIGHT, &map_plain, &[]));
    assert!(can_move_up(&POSITION_BOTTOM_LEFT, &map_plain, &[]));
    assert!(can_move_up(&POSITION_BOTTOM_RIGHT, &map_plain, &[]));
    assert!(can_move_up(&POSITION_MIDDLE, &map_plain, &[]));

    let map_stone = create_stone_map();
    assert!(!can_move_up(&POSITION_TOP_LEFT, &map_stone, &[]));
    assert!(!can_move_up(&POSITION_TOP_RIGHT, &map_stone, &[]));
    assert!(!can_move_up(&POSITION_BOTTOM_LEFT, &map_stone, &[]));
    assert!(!can_move_up(&POSITION_BOTTOM_RIGHT, &map_stone, &[]));
    assert!(!can_move_up(&POSITION_MIDDLE, &map_stone, &[]));
}

#[test]
fn test_can_move_up_with_actors() {
    let map_plain = create_plain_map();
    let occupied = vec![POSITION_MIDDLE];

    assert!(can_move_up(&POSITION_BOTTOM_RIGHT, &map_plain, &occupied));
    assert!(can_move_up(&POSITION_BOTTOM_LEFT, &map_plain, &occupied));
    assert!(!can_move_up(&POSITION_BOTTOM_MIDDLE, &map_plain, &occupied));
}

#[test]
fn test_can_move_down_without_actors() {
    let map_plain = create_plain_map();
    assert!(!can_move_down(&POSITION_BOTTOM_LEFT, &map_plain, &[]));
    assert!(!can_move_down(&POSITION_BOTTOM_RIGHT, &map_plain, &[]));
    assert!(can_move_down(&POSITION_TOP_LEFT, &map_plain, &[]));
    assert!(can_move_down(&POSITION_TOP_RIGHT, &map_plain, &[]));
    assert!(can_move_down(&POSITION_MIDDLE, &map_plain, &[]));

    let map_stone = create_stone_map();
    assert!(!can_move_down(&POSITION_TOP_LEFT, &map_stone, &[]));
    assert!(!can_move_down(&POSITION_TOP_RIGHT, &map_stone, &[]));
    assert!(!can_move_down(&POSITION_BOTTOM_LEFT, &map_stone, &[]));
    assert!(!can_move_down(&POSITION_BOTTOM_RIGHT, &map_stone, &[]));
    assert!(!can_move_down(&POSITION_MIDDLE, &map_stone, &[]));
}

#[test]
fn test_can_move_down_with_actors() {
    let map_plain = create_plain_map();
    let occupied = vec![POSITION_MIDDLE];

    assert!(can_move_down(&POSITION_TOP_RIGHT, &map_plain, &occupied));
    assert!(can_move_down(&POSITION_TOP_LEFT, &map_plain, &occupied));
    assert!(!can_move_down(&POSITION_TOP_MIDDLE, &map_plain, &occupied));
}

#[test]
fn test_enumerate_reachable_positions() {
    let map_plain = create_plain_map();

    let reachable_positions = enumerate_reachable_positions(&POSITION_MIDDLE, &map_plain, &[]);

    assert_eq!(4, reachable_positions.len())
}

#[test]
fn test_can_move_left() {
    let map_plain = create_plain_map();
    assert!(!can_move_left(&POSITION_TOP_LEFT, &map_plain, &[]));
    assert!(!can_move_left(&POSITION_BOTTOM_LEFT, &map_plain, &[]));
    assert!(can_move_left(&POSITION_TOP_RIGHT, &map_plain, &[]));
    assert!(can_move_left(&POSITION_BOTTOM_RIGHT, &map_plain, &[]));
    assert!(can_move_left(&POSITION_MIDDLE, &map_plain, &[]));

    let map_stone = create_stone_map();
    assert!(!can_move_left(&POSITION_TOP_LEFT, &map_stone, &[]));
    assert!(!can_move_left(&POSITION_TOP_RIGHT, &map_stone, &[]));
    assert!(!can_move_left(&POSITION_BOTTOM_LEFT, &map_stone, &[]));
    assert!(!can_move_left(&POSITION_BOTTOM_RIGHT, &map_stone, &[]));
    assert!(!can_move_left(&POSITION_MIDDLE, &map_stone, &[]));
}

#[test]
fn test_can_move_right() {
    let map_plain = create_plain_map();
    assert!(!can_move_right(&POSITION_TOP_RIGHT, &map_plain, &[]));
    assert!(!can_move_right(&POSITION_BOTTOM_RIGHT, &map_plain, &[]));
    assert!(can_move_right(&POSITION_TOP_LEFT, &map_plain, &[]));
    assert!(can_move_right(&POSITION_BOTTOM_LEFT, &map_plain, &[]));
    assert!(can_move_right(&POSITION_MIDDLE, &map_plain, &[]));

    let map_stone = create_stone_map();
    assert!(!can_move_right(&POSITION_TOP_LEFT, &map_stone, &[]));
    assert!(!can_move_right(&POSITION_TOP_RIGHT, &map_stone, &[]));
    assert!(!can_move_right(&POSITION_BOTTOM_LEFT, &map_stone, &[]));
    assert!(!can_move_right(&POSITION_BOTTOM_RIGHT, &map_stone, &[]));
    assert!(!can_move_right(&POSITION_MIDDLE, &map_stone, &[]));
}

#[test]
fn test_can_move_up() {
    let map_plain = create_plain_map();
    assert!(!can_move_up(&POSITION_TOP_LEFT, &map_plain, &[]));
    assert!(!can_move_up(&POSITION_TOP_RIGHT, &map_plain, &[]));
    assert!(can_move_up(&POSITION_BOTTOM_LEFT, &map_plain, &[]));
    assert!(can_move_up(&POSITION_BOTTOM_RIGHT, &map_plain, &[]));
    assert!(can_move_up(&POSITION_MIDDLE, &map_plain, &[]));

    let map_stone = create_stone_map();
    assert!(!can_move_up(&POSITION_TOP_LEFT, &map_stone, &[]));
    assert!(!can_move_up(&POSITION_TOP_RIGHT, &map_stone, &[]));
    assert!(!can_move_up(&POSITION_BOTTOM_LEFT, &map_stone, &[]));
    assert!(!can_move_up(&POSITION_BOTTOM_RIGHT, &map_stone, &[]));
    assert!(!can_move_up(&POSITION_MIDDLE, &map_stone, &[]));
}

#[test]
fn test_can_move_down() {
    let map_plain = create_plain_map();
    assert!(!can_move_down(&POSITION_BOTTOM_LEFT, &map_plain, &[]));
    assert!(!can_move_down(&POSITION_BOTTOM_RIGHT, &map_plain, &[]));
    assert!(can_move_down(&POSITION_TOP_LEFT, &map_plain, &[]));
    assert!(can_move_down(&POSITION_TOP_RIGHT, &map_plain, &[]));
    assert!(can_move_down(&POSITION_MIDDLE, &map_plain, &[]));

    let map_stone = create_stone_map();
    assert!(!can_move_down(&POSITION_TOP_LEFT, &map_stone, &[]));
    assert!(!can_move_down(&POSITION_TOP_RIGHT, &map_stone, &[]));
    assert!(!can_move_down(&POSITION_BOTTOM_LEFT, &map_stone, &[]));
    assert!(!can_move_down(&POSITION_BOTTOM_RIGHT, &map_stone, &[]));
    assert!(!can_move_down(&POSITION_MIDDLE, &map_stone, &[]));
}

/// The validators against a table written out by hand, for every position of
/// a map whose middle column is stone: rows of the table are positions, row
/// by row, and the columns are left, right, up, down.
#[test]
fn validators_agree_with_table_on_blocked_column() {
    let mut map = create_plain_map();
    for y in 0..3 {
        map.tiles[y * 3 + 1] = Tile::from_kind(TileKind::GrassWithStone);
    }
    let expected = [
        [false, false, false, true],
        [true, true, false, false],
        [false, false, false, true],
        [false, false, true, true],
        [true, true, false, false],
        [false, false, true, true],
        [false, false, true, false],
        [true, true, false, false],
        [false, false, true, false],
    ];
    for y in 0..3 {
        for x in 0..3 {
            let position = MapPosition::new(x, y);
            let row = expected[y * 3 + x];
            assert_eq!(can_move_left(&position, &map, &[]), row[0], "left of {:?}", position);
            assert_eq!(can_move_right(&position, &map, &[]), row[1], "right of {:?}", position);
            assert_eq!(can_move_up(&position, &map, &[]), row[2], "up of {:?}", position);
            assert_eq!(can_move_down(&position, &map, &[]), row[3], "down of {:?}", position);
        }
    }
}

#[test]
fn validators_agree_with_table_on_checkerboard() {
    let map = create_stone_map();
    for y in 0..3 {
        for x in 0..3 {
            let position = MapPosition::new(x, y);
            let on_grass = (x + y) % 2 == 0;
            // around a grass tile of a checkerboard all is stone, and around a stone all is grass
            assert_eq!(can_move_left(&position, &map, &[]), !on_grass && x > 0);
            assert_eq!(can_move_right(&position, &map, &[]), !on_grass && x < 2);
            assert_eq!(can_move_up(&position, &map, &[]), !on_grass && y > 0);
            assert_eq!(can_move_down(&position, &map, &[]), !on_grass && y < 2);
        }
    }
}

#[test]
fn no_step_from_a_position_off_the_map() {
    let map = create_plain_map();
    assert!(!can_move_left(&MapPosition::new(3, 1), &map, &[]));
    assert!(!can_move_up(&MapPosition::new(1, 3), &map, &[]));
    assert!(!can_move_right(&MapPosition::new(usize::MAX, 0), &map, &[]));
    assert!(!can_move_down(&MapPosition::new(0, usize::MAX), &map, &[]));
}

#[test]
fn no_step_onto_an_occupied_tile() {
    let mut map = create_plain_map();
    put(&mut map, ActorKind::Rabbit, 1, 1);
    assert!(!can_move_left(&POSITION_MIDDLE_RIGHT, &map, &[]));
    assert!(!can_move_right(&POSITION_MIDDLE_LEFT, &map, &[]));
    assert!(!can_move_up(&POSITION_BOTTOM_MIDDLE, &map, &[]));
    assert!(!can_move_down(&POSITION_TOP_MIDDLE, &map, &[]));
    assert!(can_move(&POSITION_MIDDLE, Direction::Left, &map, &[]));
}

#[test]
fn a_step_moves_occupant_and_position() {
    let mut map = create_plain_map();
    let bundle = put(&mut map, ActorKind::Rabbit, 1, 1);
    let mut position = bundle.map_position;

    assert!(move_left(&mut map, &mut position, &[]));
    assert_eq!(position, MapPosition::new(0, 1));
    assert_eq!(map.tiles[3].actor, Some(bundle.actor));
    assert_eq!(map.tiles[4].actor, None);

    assert!(move_down(&mut map, &mut position, &[]));
    assert_eq!(position, MapPosition::new(0, 2));
    assert!(move_right(&mut map, &mut position, &[]));
    assert_eq!(position, MapPosition::new(1, 2));
    assert!(move_up(&mut map, &mut position, &[]));
    assert_eq!(position, MapPosition::new(1, 1));
    assert_eq!(map.tiles[4].actor, Some(bundle.actor));
    assert_eq!(map.tiles.iter().filter(|tile| tile.actor.is_some()).count(), 1);
}

#[test]
fn a_step_that_is_not_allowed_changes_nothing() {
    let mut map = create_stone_map();
    let bundle = put(&mut map, ActorKind::Rabbit, 0, 0);
    let before = map.tiles.clone();
    let mut position = bundle.map_position;

    assert!(!move_left(&mut map, &mut position, &[]));
    assert!(!move_up(&mut map, &mut position, &[]));
    assert!(!move_right(&mut map, &mut position, &[]));
    assert!(!move_down(&mut map, &mut position, &[]));
    assert!(!move_toward(&mut map, &mut position, Direction::Right, &[]));
    assert_eq!(position, MapPosition::new(0, 0));
    assert_eq!(map.tiles, before);
}

#[test]
fn reachable_positions_come_left_right_up_down() {
    let map = create_plain_map();
    assert_eq!(
        enumerate_reachable_positions(&POSITION_MIDDLE, &map, &[]),
        vec![
            POSITION_MIDDLE_LEFT,
            POSITION_MIDDLE_RIGHT,
            POSITION_TOP_MIDDLE,
            POSITION_BOTTOM_MIDDLE
        ]
    );
    assert_eq!(
        enumerate_reachable_positions(&POSITION_TOP_LEFT, &map, &[]),
        vec![POSITION_TOP_MIDDLE, POSITION_MIDDLE_LEFT]
    );
    assert_eq!(
        enumerate_reachable_positions(&POSITION_MIDDLE, &map, &[POSITION_TOP_MIDDLE]),
        vec![POSITION_MIDDLE_LEFT, POSITION_MIDDLE_RIGHT, POSITION_BOTTOM_MIDDLE]
    );
    assert!(enumerate_reachable_positions(&POSITION_MIDDLE, &create_stone_map(), &[]).is_empty());
}

#[test]
fn a_random_walk_takes_the_only_step_there_is() {
    // a corridor: only the tile to the right of the mob is free
    let mut map = TileGrid {
        width: 2,
        height: 1,
        tiles: vec![Tile::default(); 2],
        exits: vec![],
    };
    let bundle = put(&mut map, ActorKind::Rabbit, 0, 0);
    let mut position = bundle.map_position;
    move_randomly(&mut position, &mut map, &[]);
    assert_eq!(position, MapPosition::new(1, 0));
    assert_eq!(map.tiles[1].actor, Some(bundle.actor));
    assert_eq!(map.tiles[0].actor, None);
}

#[test]
fn a_random_walk_is_one_allowed_step() {
    for _ in 0..50 {
        let mut map = create_plain_map();
        let bundle = put(&mut map, ActorKind::Rabbit, 1, 1);
        let mut position = bundle.map_position;
        move_randomly(&mut position, &mut map, &[POSITION_TOP_MIDDLE]);
        assert_eq!(manhattan(&position, &POSITION_MIDDLE), 1);
        assert_ne!(position, POSITION_TOP_MIDDLE);
        assert_eq!(map.tiles[position.y * 3 + position.x].actor, Some(bundle.actor));
        assert_eq!(map.tiles[4].actor, None);
    }
}

#[test]
fn a_walled_in_mob_stays() {
    let mut map = create_stone_map();
    let bundle = put(&mut map, ActorKind::Rabbit, 1, 1);
    let before = map.tiles.clone();
    let mut position = bundle.map_position;
    move_randomly(&mut position, &mut map, &[]);
    assert_eq!(position, POSITION_MIDDLE);
    assert_eq!(map.tiles, before);
}

#[test]
fn a_hostile_mob_approaches_along_a_shared_row_or_column() {
    let player = MapPosition::new(2, 2);

    let mut map = create_open_map(5, 5);
    let mut mob = put(&mut map, ActorKind::Blob, 0, 2).map_position;
    move_to_player(&player, &mut mob, &mut map, &[]);
    assert_eq!(mob, MapPosition::new(1, 2));

    let mut map = create_open_map(5, 5);
    let mut mob = put(&mut map, ActorKind::Blob, 4, 2).map_position;
    move_to_player(&player, &mut mob, &mut map, &[]);
    assert_eq!(mob, MapPosition::new(3, 2));

    let mut map = create_open_map(5, 5);
    let mut mob = put(&mut map, ActorKind::Blob, 2, 4).map_position;
    move_to_player(&player, &mut mob, &mut map, &[]);
    assert_eq!(mob, MapPosition::new(2, 3));

    let mut map = create_open_map(5, 5);
    let mut mob = put(&mut map, ActorKind::Blob, 2, 0).map_position;
    move_to_player(&player, &mut mob, &mut map, &[]);
    assert_eq!(mob, MapPosition::new(2, 1));
}

#[test]
fn a_hostile_mob_off_row_and_column_stays() {
    let player = MapPosition::new(0, 0);
    let mut map = create_open_map(5, 5);
    let mut mob = put(&mut map, ActorKind::Blob, 4, 4).map_position;
    move_to_player(&player, &mut mob, &mut map, &[]);
    assert_eq!(mob, MapPosition::new(4, 4));
}

#[test]
fn a_hostile_mob_behind_a_stone_stays() {
    let player = MapPosition::new(0, 0);
    let mut map = create_open_map(3, 1);
    map.tiles[1] = Tile::from_kind(TileKind::GrassWithStone);
    let mut mob = put(&mut map, ActorKind::Blob, 2, 0).map_position;
    move_to_player(&player, &mut mob, &mut map, &[]);
    assert_eq!(mob, MapPosition::new(2, 0));
}

/// A player at (0,0) and a hostile mob at (4,4) on an open map of 5 by 5: over
/// the turns of the mobs the distance between them never grows.
#[test]
fn hostile_distance_never_grows() {
    let mut map = create_open_map(5, 5);
    let player = put(&mut map, ActorKind::Player, 0, 0);
    let blob = put(&mut map, ActorKind::Blob, 4, 4);
    let mut actors = vec![player, blob];
    let mut distance = manhattan(&actors[1].map_position, &actors[0].map_position);
    assert_eq!(distance, 8);
    for _ in 0..20 {
        move_mob(&mut actors, &mut map);
        let now = manhattan(&actors[1].map_position, &actors[0].map_position);
        assert!(now <= distance);
        distance = now;
        assert_eq!(actors[0].map_position, MapPosition::new(0, 0));
    }
}

#[test]
fn hostile_mob_walks_up_to_the_player() {
    let mut map = create_open_map(5, 5);
    let player = put(&mut map, ActorKind::Player, 0, 2);
    let blob = put(&mut map, ActorKind::Blob, 4, 2);
    let mut actors = vec![blob, player];
    let mut expected = 4;
    for _ in 0..6 {
        move_mob(&mut actors, &mut map);
        if expected > 1 {
            expected -= 1;
        }
        assert_eq!(manhattan(&actors[0].map_position, &actors[1].map_position), expected);
    }
    // the mob stands next to the player and cannot step onto its tile
    assert_eq!(actors[0].map_position, MapPosition::new(1, 2));
    assert_eq!(map.tiles[2 * 5 + 1].actor, Some(Actor::new(ActorKind::Blob)));
    assert_eq!(map.tiles[2 * 5].actor, Some(Actor::new(ActorKind::Player)));
}

#[test]
fn mobs_keep_tiles_and_positions_in_lock_step() {
    let mut map = create_open_map(4, 4);
    let mut actors = vec![
        put(&mut map, ActorKind::Rabbit, 0, 0),
        put(&mut map, ActorKind::Rabbit, 1, 0),
        put(&mut map, ActorKind::Player, 2, 2),
        put(&mut map, ActorKind::Blob, 2, 0),
        put(&mut map, ActorKind::Rabbit, 3, 3),
    ];
    for _ in 0..100 {
        let before = actors.clone();
        move_mob(&mut actors, &mut map);
        assert_eq!(actors.len(), before.len());
        for (was, is) in before.iter().zip(actors.iter()) {
            assert_eq!(was.actor, is.actor);
            assert!(manhattan(&was.map_position, &is.map_position) <= 1);
        }
        let occupied = map.tiles.iter().filter(|tile| tile.actor.is_some()).count();
        assert_eq!(occupied, actors.len());
        for bundle in &actors {
            let index = bundle.map_position.y * map.width + bundle.map_position.x;
            assert_eq!(map.tiles[index].actor, Some(bundle.actor));
        }
    }
}

#[test]
fn without_a_player_nobody_moves() {
    let mut map = create_open_map(3, 3);
    let mut actors = vec![
        put(&mut map, ActorKind::Rabbit, 0, 0),
        put(&mut map, ActorKind::Blob, 2, 2),
    ];
    let before_actors = actors.clone();
    let before_tiles = map.tiles.clone();
    move_mob(&mut actors, &mut map);
    assert_eq!(actors, before_actors);
    assert_eq!(map.tiles, before_tiles);
}

#[test]
fn every_mob_moves_where_it_can() {
    // a corridor: the rabbit has one step to take, and the blob one towards the player
    let mut map = create_open_map(6, 1);
    let mut actors = vec![
        put(&mut map, ActorKind::Rabbit, 0, 0),
        put(&mut map, ActorKind::Player, 2, 0),
        put(&mut map, ActorKind::Blob, 5, 0),
    ];
    move_mob(&mut actors, &mut map);
    assert_eq!(actors[0].map_position, MapPosition::new(1, 0));
    assert_eq!(actors[1].map_position, MapPosition::new(2, 0));
    assert_eq!(actors[2].map_position, MapPosition::new(4, 0));
    assert_eq!(map.tiles[0].actor, None);
    assert_eq!(map.tiles[1].actor, Some(Actor::new(ActorKind::Rabbit)));
    assert_eq!(map.tiles[4].actor, Some(Actor::new(ActorKind::Blob)));
    assert_eq!(map.tiles[5].actor, None);
}

#[test]
fn a_mob_sees_the_tiles_as_the_mobs_before_it_left_them() {
    // the rabbit can only step to the right, onto the tile that the blob wants:
    // the rabbit comes first and takes it, so the blob is blocked
    let mut map = create_open_map(4, 1);
    let mut actors = vec![
        put(&mut map, ActorKind::Player, 0, 0),
        put(&mut map, ActorKind::Rabbit, 1, 0),
        put(&mut map, ActorKind::Blob, 3, 0),
    ];
    move_mob(&mut actors, &mut map);
    assert_eq!(actors[1].map_position, MapPosition::new(2, 0));
    assert_eq!(actors[2].map_position, MapPosition::new(3, 0));

    // with the blob first, the blob takes the tile and the rabbit is walled in
    let mut map = create_open_map(4, 1);
    let mut actors = vec![
        put(&mut map, ActorKind::Player, 0, 0),
        put(&mut map, ActorKind::Blob, 3, 0),
        put(&mut map, ActorKind::Rabbit, 1, 0),
    ];
    move_mob(&mut actors, &mut map);
    assert_eq!(actors[1].map_position, MapPosition::new(2, 0));
    assert_eq!(actors[2].map_position, MapPosition::new(1, 0));
}
