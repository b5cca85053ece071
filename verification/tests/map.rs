use roguelike::actors::Actor;
use roguelike::actors::ActorKind;
use roguelike::cellular_automaton::CellularAutomaton;
use roguelike::cellular_automaton::CellularState;
use roguelike::map::contains_position;
use roguelike::map::tile_kind_for_cell;
use roguelike::map::tile_kind_for_noise;
use roguelike::map::MapError;
use roguelike::map::MapPosition;
use roguelike::map::NoiseLevel;
use roguelike::map::TileGrid;
use roguelike::random::Probability;
use roguelike::tile::Tile;
use roguelike::tile::TileKind;

fn open_map(width: usize, height: usize) -> TileGrid {
    TileGrid {
        width,
        height,
        tiles: vec![Tile::default(); width * height],
        exits: vec![],
    }
}

#[test]
fn test_generate_random_spawning_position_success() {
    let map1x1 = TileGrid {
        width: 1,
        height: 1,
        tiles: vec![Tile::default()],
        exits: vec![],
    };

    let spawn = map1x1.generate_random_positions(1, &vec![]);

    assert!(spawn.is_ok());
    assert_eq!(vec![MapPosition::new(0, 0)], spawn.unwrap());
}

#[test]
fn test_generate_random_spawning_position_failure() {
    let mut map1x1 = TileGrid {
        width: 1,
        height: 1,
        tiles: vec![Tile::from_kind(TileKind::GrassWithStone)],
        exits: vec![],
    };

    let spawn = map1x1.generate_random_positions(1, &vec![]);
    assert!(spawn.is_err());

    map1x1.tiles = vec![Tile::default()];

    let spawn = map1x1.generate_random_positions(1, &vec![]);
    assert!(spawn.is_ok());

    let spawn = map1x1.generate_random_positions(1, &vec![MapPosition { x: 0, y: 0 }]);
    assert!(spawn.is_err());
}

#[test]
fn too_few_free_tiles_is_an_error_before_any_is_handed_out() {
    let map = open_map(2, 2);
    assert_eq!(
        map.generate_random_positions(5, &[]),
        Err(MapError::NoSpawnablePositions)
    );
    assert_eq!(
        map.generate_random_positions(4, &[MapPosition::new(1, 1)]),
        Err(MapError::NoSpawnablePositions)
    );
    assert_eq!(map.generate_random_positions(4, &[]).unwrap().len(), 4);
}

#[test]
fn no_positions_can_always_be_had() {
    let blocked = TileGrid {
        width: 1,
        height: 1,
        tiles: vec![Tile::from_kind(TileKind::GrassWithStone)],
        exits: vec![],
    };
    assert_eq!(blocked.generate_random_positions(0, &[]), Ok(vec![]));
}

#[test]
fn random_positions_are_distinct_free_tiles() {
    let mut map = open_map(4, 3);
    map.tiles[0] = Tile::from_kind(TileKind::GrassWithStone);
    map.tiles[5].actor = Some(Actor::new(ActorKind::Rabbit));
    let excluded = vec![MapPosition::new(3, 2)];
    for _ in 0..50 {
        let positions = map.generate_random_positions(9, &excluded).unwrap();
        assert_eq!(positions.len(), 9);
        for (i, position) in positions.iter().enumerate() {
            assert!(position.x < 4 && position.y < 3);
            assert!(map.is_position_free(position, &excluded));
            assert_ne!(*position, MapPosition::new(0, 0));
            assert_ne!(*position, MapPosition::new(1, 1));
            assert_ne!(*position, MapPosition::new(3, 2));
            assert!(!contains_position(&positions[..i], position));
        }
    }
}

#[test]
fn random_positions_are_shuffled() {
    let map = open_map(16, 16);
    let in_order: Vec<MapPosition> = (0..256).map(|i| MapPosition::new(i % 16, i / 16)).collect();
    let positions = map.generate_random_positions(256, &[]).unwrap();
    assert_ne!(positions, in_order);
    let mut sorted = positions.clone();
    sorted.sort_by_key(|position| position.y * 16 + position.x);
    assert_eq!(sorted, in_order);
}

#[test]
fn a_single_spawning_position_is_free() {
    let mut map = open_map(2, 2);
    map.tiles[0] = Tile::from_kind(TileKind::GrassWithStone);
    map.tiles[1] = Tile::from_kind(TileKind::GrassWithStoneDamaged);
    map.tiles[2].actor = Some(Actor::new(ActorKind::Blob));
    for _ in 0..10 {
        assert_eq!(map.generate_random_spawning_position(), MapPosition::new(1, 1));
    }
}

#[test]
fn tile_index_is_column_plus_row_times_width() {
    let map = open_map(4, 3);
    assert_eq!(map.as_tile_index(&MapPosition::new(0, 0)), Ok(0));
    assert_eq!(map.as_tile_index(&MapPosition::new(3, 0)), Ok(3));
    assert_eq!(map.as_tile_index(&MapPosition::new(0, 1)), Ok(4));
    assert_eq!(map.as_tile_index(&MapPosition::new(2, 1)), Ok(6));
    assert_eq!(map.as_tile_index(&MapPosition::new(3, 2)), Ok(11));
}

#[test]
fn tile_index_out_of_bounds() {
    let map = open_map(4, 3);
    assert_eq!(map.as_tile_index(&MapPosition::new(4, 0)), Err(MapError::OutOfBounds));
    assert_eq!(map.as_tile_index(&MapPosition::new(0, 3)), Err(MapError::OutOfBounds));
    assert_eq!(map.as_tile_index(&MapPosition::new(4, 2)), Err(MapError::OutOfBounds));
    assert_eq!(
        map.as_tile_index(&MapPosition::new(1, usize::MAX)),
        Err(MapError::OutOfBounds)
    );
    assert_eq!(
        map.as_tile_index(&MapPosition::new(usize::MAX, usize::MAX)),
        Err(MapError::OutOfBounds)
    );
    let empty = open_map(0, 0);
    assert_eq!(empty.as_tile_index(&MapPosition::new(0, 0)), Err(MapError::OutOfBounds));
}

#[test]
fn move_actor_moves_occupant_and_position() {
    let mut map = open_map(3, 3);
    let rabbit = Actor::new(ActorKind::Rabbit);
    map.tiles[4].actor = Some(rabbit);
    let mut position = MapPosition::new(1, 1);
    assert_eq!(map.move_actor(&mut position, &MapPosition::new(2, 2)), Ok(()));
    assert_eq!(position, MapPosition::new(2, 2));
    assert_eq!(map.tiles[4].actor, None);
    assert_eq!(map.tiles[8].actor, Some(rabbit));
}

#[test]
fn move_actor_round_trip_restores_everything() {
    let mut map = open_map(3, 2);
    map.tiles[1] = Tile::from_kind(TileKind::GrassWithFlower);
    map.tiles[5] = Tile::from_kind(TileKind::LevelExit);
    map.tiles[1].actor = Some(Actor::new(ActorKind::Blob));
    map.tiles[3].actor = Some(Actor::new(ActorKind::Player));
    let before = map.tiles.clone();
    let a = MapPosition::new(1, 0);
    let b = MapPosition::new(2, 1);
    let mut position = a;
    assert_eq!(map.move_actor(&mut position, &b), Ok(()));
    assert_eq!(position, b);
    assert_ne!(map.tiles, before);
    assert_eq!(map.move_actor(&mut position, &a), Ok(()));
    assert_eq!(position, a);
    assert_eq!(map.tiles, before);
}

#[test]
fn move_actor_onto_its_own_tile_changes_nothing() {
    let mut map = open_map(2, 2);
    map.tiles[3].actor = Some(Actor::new(ActorKind::Player));
    let before = map.tiles.clone();
    let mut position = MapPosition::new(1, 1);
    assert_eq!(map.move_actor(&mut position, &MapPosition::new(1, 1)), Ok(()));
    assert_eq!(position, MapPosition::new(1, 1));
    assert_eq!(map.tiles, before);
}

#[test]
fn move_actor_out_of_bounds_changes_nothing() {
    let mut map = open_map(2, 2);
    map.tiles[0].actor = Some(Actor::new(ActorKind::Player));
    let before = map.tiles.clone();

    let mut position = MapPosition::new(0, 0);
    assert_eq!(
        map.move_actor(&mut position, &MapPosition::new(2, 0)),
        Err(MapError::OutOfBounds)
    );
    assert_eq!(position, MapPosition::new(0, 0));
    assert_eq!(map.tiles, before);

    let mut outside = MapPosition::new(0, 2);
    assert_eq!(
        map.move_actor(&mut outside, &MapPosition::new(0, 0)),
        Err(MapError::OutOfBounds)
    );
    assert_eq!(outside, MapPosition::new(0, 2));
    assert_eq!(map.tiles, before);
}

#[test]
fn exit_tile_is_added_on_the_rightmost_column() {
    for _ in 0..30 {
        let mut map = open_map(4, 5);
        map.tiles[3] = Tile::from_kind(TileKind::GrassWithStone);
        map.tiles[2 * 4 + 3].actor = Some(Actor::new(ActorKind::Rabbit));
        let before = map.tiles.clone();
        assert!(map.can_add_exit_tile());
        map.add_exit_tile();

        assert_eq!(map.exits.len(), 1);
        let exit = map.exits[0];
        assert_eq!(exit.x, 3);
        assert!(exit.y == 1 || exit.y == 3 || exit.y == 4);
        let index = exit.y * 4 + exit.x;
        assert_eq!(map.tiles[index], Tile::from_kind(TileKind::LevelExit));
        let exits = map.tiles.iter().filter(|tile| tile.kind == TileKind::LevelExit).count();
        assert_eq!(exits, 1);
        for (i, tile) in map.tiles.iter().enumerate() {
            if i != index {
                assert_eq!(*tile, before[i]);
            }
        }
    }
}

#[test]
fn exit_tile_takes_the_only_candidate() {
    let mut map = open_map(2, 3);
    map.tiles[1] = Tile::from_kind(TileKind::GrassWithStone);
    map.tiles[5] = Tile::from_kind(TileKind::GrassWithStoneDamaged);
    map.add_exit_tile();
    assert_eq!(map.exits, vec![MapPosition::new(1, 1)]);
    assert_eq!(map.tiles[3].kind, TileKind::LevelExit);
}

#[test]
fn no_exit_can_be_added_to_a_blocked_column() {
    let mut map = open_map(2, 2);
    map.tiles[1] = Tile::from_kind(TileKind::GrassWithStone);
    map.tiles[3].actor = Some(Actor::new(ActorKind::Blob));
    assert!(!map.can_add_exit_tile());
    assert!(!open_map(0, 0).can_add_exit_tile());
}

#[test]
fn map_from_terrain_checks_size_and_exit() {
    assert_eq!(
        TileGrid::from_terrain(2, 2, vec![Tile::default(); 3]).err(),
        Some(MapError::OutOfBounds)
    );
    assert_eq!(
        TileGrid::from_terrain(usize::MAX, 2, vec![]).err(),
        Some(MapError::OutOfBounds)
    );
    assert_eq!(
        TileGrid::from_terrain(1, 2, vec![Tile::from_kind(TileKind::GrassWithStone); 2]).err(),
        Some(MapError::NoExitPositions)
    );
    let map = TileGrid::from_terrain(1, 1, vec![Tile::default()]).unwrap();
    assert_eq!(map.exits, vec![MapPosition::new(0, 0)]);
    assert_eq!(map.tiles, vec![Tile::from_kind(TileKind::LevelExit)]);
}

#[test]
fn map_from_cellular_automaton_follows_the_cells() {
    let ca = CellularAutomaton {
        width: 3,
        height: 2,
        cells: vec![
            CellularState::Alive,
            CellularState::Dead,
            CellularState::Alive,
            CellularState::Dead,
            CellularState::Alive,
            CellularState::Dead,
        ],
    };
    let map = TileGrid::from_cellular_automaton(ca, Probability::never()).unwrap();
    assert_eq!(map.width, 3);
    assert_eq!(map.height, 2);
    assert_eq!(map.exits, vec![MapPosition::new(2, 1)]);
    let kinds: Vec<TileKind> = map.tiles.iter().map(|tile| tile.kind).collect();
    assert_eq!(
        kinds,
        vec![
            TileKind::GrassWithStone,
            TileKind::Grass,
            TileKind::GrassWithStone,
            TileKind::Grass,
            TileKind::GrassWithStone,
            TileKind::LevelExit,
        ]
    );
    assert!(map.tiles.iter().all(|tile| tile.actor.is_none()));
}

#[test]
fn map_from_cellular_automaton_damages_stones() {
    let ca = CellularAutomaton {
        width: 2,
        height: 1,
        cells: vec![CellularState::Alive, CellularState::Dead],
    };
    let map = TileGrid::from_cellular_automaton(ca, Probability::always()).unwrap();
    assert_eq!(map.tiles[0].kind, TileKind::GrassWithStoneDamaged);
    assert_eq!(map.tiles[1].kind, TileKind::LevelExit);
}

#[test]
fn map_from_cellular_automaton_needs_an_open_column() {
    let ca = CellularAutomaton::new(3, 3, Probability::always());
    assert_eq!(
        TileGrid::from_cellular_automaton(ca, Probability::never()).err(),
        Some(MapError::NoExitPositions)
    );
}

#[test]
fn map_from_noise_levels_follows_the_levels() {
    let levels = vec![
        NoiseLevel::High,
        NoiseLevel::Middle,
        NoiseLevel::Middle,
        NoiseLevel::Low,
    ];
    let map = TileGrid::from_noise_levels(levels, 2, 2, Probability::never()).unwrap();
    assert_eq!(map.exits, vec![MapPosition::new(1, 0)]);
    let kinds: Vec<TileKind> = map.tiles.iter().map(|tile| tile.kind).collect();
    assert_eq!(
        kinds,
        vec![
            TileKind::GrassWithFlower,
            TileKind::LevelExit,
            TileKind::Grass,
            TileKind::GrassWithStone,
        ]
    );
}

#[test]
fn map_from_noise_levels_checks_size_and_exit() {
    assert_eq!(
        TileGrid::from_noise_levels(vec![NoiseLevel::High; 3], 2, 2, Probability::never()).err(),
        Some(MapError::OutOfBounds)
    );
    let levels = vec![NoiseLevel::High, NoiseLevel::Low, NoiseLevel::Middle, NoiseLevel::Low];
    assert_eq!(
        TileGrid::from_noise_levels(levels, 2, 2, Probability::always()).err(),
        Some(MapError::NoExitPositions)
    );
}

#[test]
fn ground_for_cells_and_noise() {
    assert_eq!(tile_kind_for_cell(CellularState::Dead, false), TileKind::Grass);
    assert_eq!(tile_kind_for_cell(CellularState::Dead, true), TileKind::Grass);
    assert_eq!(tile_kind_for_cell(CellularState::Alive, false), TileKind::GrassWithStone);
    assert_eq!(
        tile_kind_for_cell(CellularState::Alive, true),
        TileKind::GrassWithStoneDamaged
    );
    assert_eq!(tile_kind_for_noise(NoiseLevel::High, true), TileKind::GrassWithFlower);
    assert_eq!(tile_kind_for_noise(NoiseLevel::Middle, true), TileKind::Grass);
    assert_eq!(tile_kind_for_noise(NoiseLevel::Low, false), TileKind::GrassWithStone);
    assert_eq!(
        tile_kind_for_noise(NoiseLevel::Low, true),
        TileKind::GrassWithStoneDamaged
    );
}

#[test]
fn positions_step_to_their_neighbours() {
    let position = MapPosition::new(3, 7);
    assert_eq!(position.left(), Ok(MapPosition::new(2, 7)));
    assert_eq!(position.right(), Ok(MapPosition::new(4, 7)));
    assert_eq!(position.up(), Ok(MapPosition::new(3, 6)));
    assert_eq!(position.down(), Ok(MapPosition::new(3, 8)));
}

#[test]
fn positions_do_not_step_past_the_numbers() {
    assert_eq!(MapPosition::new(0, 5).left(), Err(MapError::OutOfBounds));
    assert_eq!(MapPosition::new(5, 0).up(), Err(MapError::OutOfBounds));
    assert_eq!(MapPosition::new(usize::MAX, 5).right(), Err(MapError::OutOfBounds));
    assert_eq!(MapPosition::new(5, usize::MAX).down(), Err(MapError::OutOfBounds));
}

#[test]
fn sprite_coordinates_are_tile_centres() {
    assert_eq!(MapPosition::new(0, 0).as_sprite_coordinates(), Some((32, -32)));
    assert_eq!(MapPosition::new(1, 0).as_sprite_coordinates(), Some((96, -32)));
    assert_eq!(MapPosition::new(3, 2).as_sprite_coordinates(), Some((224, -160)));
    assert_eq!(MapPosition::new(usize::MAX, 0).as_sprite_coordinates(), None);
    assert_eq!(MapPosition::new(0, usize::MAX).as_sprite_coordinates(), None);
}

#[test]
fn positions_are_found_in_a_list() {
    let positions = vec![MapPosition::new(1, 2), MapPosition::new(3, 4)];
    assert!(contains_position(&positions, &MapPosition::new(3, 4)));
    assert!(!contains_position(&positions, &MapPosition::new(4, 3)));
    assert!(!contains_position(&[], &MapPosition::new(0, 0)));
}
